use etudes::option_monad::OptionMonad;
use etudes::result_monad::ResultMonad;

#[derive(Debug, PartialEq)]
pub struct Error1(String);

impl Error1 {
    pub fn new(msg: &str) -> Error1 {
        Error1(msg.to_string())
    }
}

impl From<Error1> for Error2 {
    fn from(value: Error1) -> Self {
        Error2("Converted Error1(".to_string() + &value.0 + ")")
    }
}

#[derive(Debug, PartialEq)]
pub struct Error2(String);

impl Error2 {
    pub fn new(msg: &str) -> Error2 {
        Error2(msg.to_string())
    }
}

impl From<Error2> for Error1 {
    fn from(value: Error2) -> Self {
        Error1("Converted Error2(".to_string() + &value.0 + ")")
    }
}

#[test]
fn option_monad_flat_map() {
    assert_eq!(Some(4).flat_map(|x| Some(x + 4)), Some(8));
    assert_eq!(Some(4).flat_map(|_| None::<u8>), None);
    assert_eq!(None.flat_map(|x: u8| Some(x + 4)), None);
}

#[test]
fn option_monad_m_product() {
    assert_eq!(Some(3).m_product(|x| Some(x + 1)), Some((3, 4)));
    assert_eq!(Some(3).m_product(|_| None::<u8>), None);
    assert_eq!(None::<u8>.m_product(|x| Some(x + 1)), None);
}

#[test]
fn option_monad_f_product() {
    assert_eq!(Some(3).f_product(|x| x + 1), Some((3, 4)));
    assert_eq!(None::<u8>.f_product(|x| x + 1), None);
}

#[test]
fn option_monad_product() {
    assert_eq!(Some(3).product(Some(4)), Some((3, 4)));
    assert_eq!(Some(3).product(None::<u8>), None);
    assert_eq!(None::<u8>.product(Some(4)), None);
}

#[test]
fn result_monad_flat_map() {
    assert_eq!(Ok(4).flat_map(|x| Ok::<u8, Error2>(x + 4)), Ok(8));
    assert_eq!(
        Ok(4)
            .flat_map(|x| Ok::<u8, Error2>(x + 4))
            .flat_map(|x| Ok::<u8, Error1>(x + 4).map_err(Error1::into)),
        Ok(12)
    );
    assert_eq!(
        Ok(4).flat_map(|_| { Err::<u8, Error2>(Error2::new("Test")).map_err(|e| e.into()) }),
        Err(Error1::new("Converted Error2(Test)"))
    );
    assert_eq!(
        Err(Error1::new("Test1"))
            .flat_map(|x: u8| { Ok::<u8, Error2>(x + 4).map_err(Error2::into) }),
        Err(Error1::new("Test1"))
    );
}

fn plus_one(x: u8) -> Result<u8, Error2> {
    Ok(x + 1)
}

fn plus_fail(_: u8) -> Result<u8, Error2> {
    Err(Error2::new("Test"))
}

#[test]
fn result_monad_m_product() {
    assert_eq!(
        Ok::<u8, Error1>(3).m_product(|x| plus_one(*x).map_err(Error2::into)),
        Ok((3, 4))
    );
    assert_eq!(
        Ok(3).m_product(|x| plus_fail(*x).map_err(Error1::from)),
        Err(Error1::new("Converted Error2(Test)"))
    );
    assert_eq!(
        Err::<u8, Error1>(Error1::new("Test")).m_product(|x| plus_one(*x).map_err(Error1::from)),
        Err(Error1::new("Test"))
    );
}

#[test]
fn result_monad_f_product() {
    assert_eq!(Ok::<u8, Error1>(3).f_product(|x| x + 1), Ok((3, 4)));
    assert_eq!(
        Err(Error1::new("Test1")).f_product(|x: &u8| x + 1),
        Err(Error1::new("Test1"))
    );
}

fn four() -> Result<u8, Error2> {
    Ok(4)
}

fn bad() -> Result<u8, Error2> {
    Err(Error2::new("Test"))
}

#[test]
fn result_monad_product() {
    assert_eq!(
        Ok::<u8, Error1>(3).product(four().map_err(Error1::from)),
        Ok((3, 4))
    );
    assert_eq!(
        Ok::<u8, Error1>(3).product(bad().map_err(Error1::from)),
        Err(Error1::new("Converted Error2(Test)"))
    );
    assert_eq!(
        Err::<u8, Error1>(Error1::new("Test")).product(four().map_err(Error1::from)),
        Err(Error1::new("Test"))
    );
    assert_eq!(
        Err::<u8, Error1>(Error1::new("Test")).product(bad().map_err(Error1::from)),
        Err(Error1::new("Test"))
    );
}
