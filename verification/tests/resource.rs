use std::cell::Cell;

use etudes::resource::Resource;

#[test]
fn lazy() {
    let _ = Resource::new(
        || -> Result<(), String> {
            panic!("Init should not have run");
        },
        |_| -> Result<(), String> {
            panic!("Close should not have run");
        },
    );
}

#[test]
fn returns_value() {
    let resource = Resource::new(|| Ok::<i32, String>(5), |_: &i32| Ok(()));
    assert_eq!(resource.use_value(|i| Ok(i + 1)), Ok(6));
    assert_eq!(resource.use_value(|i| Ok(i + 2)), Ok(7));
}

#[test]
fn init_failures_short_circuit() {
    let resource = Resource::new(|| Err("Failure to launch".to_owned()), |_: &i32| Ok(()));
    assert_eq!(
        resource.use_value(|_| -> Result<i32, String> { panic!() }),
        Err("Failure to launch".to_owned())
    );
}

#[test]
fn returns_use_and_close_errors() {
    let resource = Resource::new(|| Ok(()), |_| Err("|close ran as expected".to_owned()));
    assert_eq!(
        resource.use_value(|_| Ok(5)),
        Err("|close ran as expected".to_owned())
    );
    assert_eq!(
        resource.use_value(|_| -> Result<(), String> { Err("use error returned".to_owned()) }),
        Err("use error returned|close ran as expected".to_owned())
    );
}

struct Tester {
    value: i32,
    log: Cell<Vec<String>>,
}

impl Tester {
    fn record(&self, l: &str) {
        let mut log = self.log.take();
        log.push(l.to_owned());
        self.log.set(log)
    }
}

fn open_tester() -> Result<Tester, String> {
    Ok(Tester { value: 0, log: Cell::new(vec!["Opened(0)".to_owned()]) })
}

fn close_tester(tester: &Tester) -> Result<(), String> {
    tester.record(&format!("Closed({})", &tester.value));
    Err(tester.log.take().join(" -- "))
}

#[test]
fn order_check() {
    let resource = Resource::new(open_tester, close_tester);
    assert_eq!(
        resource.use_value(|t| {
            t.record("using value");
            Ok(())
        }),
        Err("Opened(0) -- using value -- Closed(0)".to_owned())
    )
}
