use etudes::result_monad_error::ResultMonadError;

#[derive(Debug, PartialEq)]
pub struct Error1(String);

impl Error1 {
    pub fn new(msg: &str) -> Error1 {
        Error1(msg.to_string())
    }
}

#[derive(Debug, PartialEq)]
pub struct Error2(String);

impl Error2 {
    pub fn new(msg: &str) -> Error2 {
        Error2(msg.to_string())
    }
}

impl From<Error2> for Error1 {
    fn from(value: Error2) -> Self {
        Error1("Converted Error2(".to_string() + &value.0 + ")")
    }
}

#[test]
fn result_monad_error_flat_map() {
    assert_eq!(
        Ok::<u8, Error1>(4).flat_map(|x| Ok::<u8, Error2>(x + 4)),
        Ok(8)
    );
    assert_eq!(
        Ok::<u8, Error1>(4).flat_map(|_| Err::<u8, Error2>(Error2::new("Test"))),
        Err(Error1::new("Converted Error2(Test)"))
    );
    assert_eq!(
        Err(Error1::new("Test1")).flat_map(|x: u8| Ok::<u8, Error2>(x + 4)),
        Err(Error1::new("Test1"))
    );
}

// `m_product` sends a failing callback's error through `Into`, exactly as
// `flat_map` does, so the error that comes out is the converted one.
#[test]
fn result_monad_error_m_product_converts() {
    assert_eq!(
        Ok::<u8, Error1>(3).m_product(|x| Ok::<u8, Error2>(x + 1)),
        Ok((3, 4))
    );
    assert_eq!(
        Ok::<u8, Error1>(3).m_product(|_| Err::<u8, Error2>(Error2::new("Test"))),
        Err(Error1::new("Converted Error2(Test)"))
    );
    assert_eq!(
        Err::<u8, Error1>(Error1::new("Test")).m_product(|x: &u8| Ok::<u8, Error2>(x + 1)),
        Err(Error1::new("Test"))
    );
}

#[test]
fn result_monad_error_f_product() {
    assert_eq!(Ok::<u8, Error1>(3).f_product(|x| x + 1), Ok((3, 4)));
    assert_eq!(
        Err(Error1::new("Test1")).f_product(|x: &u8| x + 1),
        Err(Error1::new("Test1"))
    );
}

#[test]
fn result_monad_error_product() {
    assert_eq!(Ok::<u8, Error1>(3).product(Ok::<u8, Error2>(4)), Ok((3, 4)));
    assert_eq!(
        Ok::<u8, Error1>(3).product(Err::<u8, Error2>(Error2::new("Test"))),
        Err(Error1::new("Converted Error2(Test)"))
    );
    assert_eq!(
        Err::<u8, Error1>(Error1::new("Test")).product(Ok::<u8, Error2>(4)),
        Err(Error1::new("Test"))
    );
}
