//! The uniform HTTP response envelope: a code (zero for success), a human
//! message, and an optional payload.

use vstd::prelude::*;

verus! {

use vstd::string::StringExecFns;

#[derive(Debug)]
pub struct MyResponse<T> {
    pub code: i32,
    pub msg: String,
    pub data: Option<T>,
}

impl MyResponse<()> {
    pub fn success_with_msg(msg: &str) -> (r: Self)
        ensures
            r.code == 0,
            r.msg@ == msg@,
            r.data is None,
    {
        MyResponse { code: 0, msg: String::from_str(msg), data: None }
    }

    pub fn error_with_code(code: i32, msg: &str) -> (r: Self)
        ensures
            r.code == code,
            r.msg@ == msg@,
            r.data is None,
    {
        MyResponse { code, msg: String::from_str(msg), data: None }
    }

    pub fn error(msg: &str) -> (r: Self)
        ensures
            r.code == -1,
            r.msg@ == msg@,
            r.data is None,
    {
        MyResponse { code: -1, msg: String::from_str(msg), data: None }
    }
}

impl<T> MyResponse<T> {
    pub fn success_with_data(msg: &str, data: T) -> (r: Self)
        ensures
            r.code == 0,
            r.msg@ == msg@,
            r.data == Some(data),
    {
        MyResponse { code: 0, msg: String::from_str(msg), data: Some(data) }
    }

    pub fn error_with_data(code: i32, msg: &str, data: T) -> (r: Self)
        ensures
            r.code == code,
            r.msg@ == msg@,
            r.data == Some(data),
    {
        MyResponse { code, msg: String::from_str(msg), data: Some(data) }
    }
}

} // verus!
