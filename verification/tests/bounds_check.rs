// The expanded form of a method whose value checks raise atomic errors, and
// the text its failures render to.

use std::num::ParseIntError;

use smarterr::Throwable;

#[derive(Debug)]
pub enum Bounds {
    Lower(u32),
    Upper(u32),
}

impl Bounds {
    pub fn test(&self, value: u32) -> bool {
        match self {
            Bounds::Lower(bound) => value >= *bound,
            Bounds::Upper(bound) => value <= *bound,
        }
    }
}

#[derive(Debug)]
pub struct InvalidData {
    pub data: String,
    pub source: ParseIntError,
}

impl InvalidData {
    fn render(&self) -> String {
        format!("Invalid data provided [data={}]: {}", self.data, self.source)
    }
}

#[derive(Debug)]
pub struct OutOfBounds {
    pub value: u32,
    pub bound: Bounds,
}

impl OutOfBounds {
    fn render(&self) -> String {
        format!("Value is out of bound [value={}, bound={:?}]", self.value, self.bound)
    }
}

#[derive(Debug)]
enum ParseU32Errors {
    InvalidData(InvalidData),
    OutOfBounds(OutOfBounds),
}

impl ParseU32Errors {
    fn render(&self) -> String {
        match self {
            ParseU32Errors::InvalidData(e) => e.render(),
            ParseU32Errors::OutOfBounds(e) => e.render(),
        }
    }
}

struct _SomeStruct {}

impl _SomeStruct {
    pub fn parse_u32(&self, data: &str) -> Result<u32, ParseU32Errors> {
        let min = Bounds::Lower(100);
        let max = Bounds::Upper(1000);
        let data = data.to_owned();
        let value = data
            .parse::<u32>()
            .throw(|source| ParseU32Errors::InvalidData(InvalidData { data, source }))?;
        min.test(value)
            .throw(|_| ParseU32Errors::OutOfBounds(OutOfBounds { value, bound: min }))?;
        max.test(value)
            .throw(|_| ParseU32Errors::OutOfBounds(OutOfBounds { value, bound: max }))?;
        Ok(value)
    }
}

#[test]
fn test_test() {
    let s = _SomeStruct {};
    let mut actual = vec![];
    for value in &["x1", "10", "100", "1000", "10000"] {
        println!("Value: {}", value);
        let t = s.parse_u32(value);
        let output = match t {
            Ok(v) => format!("-- Value: {}", v),
            Err(e) => format!("-- method_one failed: {}", e.render()),
        };
        println!("{}", output);
        actual.push(output);
    }
    assert_eq!(
        actual,
        vec![
            "-- method_one failed: Invalid data provided [data=x1]: invalid digit found in string",
            "-- method_one failed: Value is out of bound [value=10, bound=Lower(100)]",
            "-- Value: 100",
            "-- Value: 1000",
            "-- method_one failed: Value is out of bound [value=10000, bound=Upper(1000)]",
        ]
    );
}
