//! Request-level validators over identifier values.
use vstd::prelude::*;

verus! {

/// A UUID as its 128-bit value.
#[derive(Debug, Clone, Copy, PartialEq, Eq, Structural)]
pub struct UuidValue {
    pub value: u128,
}

impl UuidValue {
    /// Whether this is the all-zero UUID.
    pub fn is_nil(&self) -> (r: bool)
        ensures
            r == (self.value == 0),
    {
        self.value == 0
    }
}

/// A validation failure, carrying its error code.
#[derive(Debug)]
pub struct FieldError {
    pub code: String,
}

/// Accept any UUID but the all-zero one.
pub fn validate_uuid_not_nil(uuid: &UuidValue) -> (r: Result<(), FieldError>)
    ensures
        uuid.value != 0 <==> r matches Result::Ok(_),
        r matches Result::Err(e) ==> e.code@ == "uuid_cannot_be_nil"@,
{
    if uuid.value == 0 {
        return Result::Err(FieldError { code: "uuid_cannot_be_nil".to_owned() });
    }
    Result::Ok(())
}

/// Accept a list of UUIDs only when none is the all-zero one.
pub fn validate_uuid_vec(vec: &Vec<UuidValue>) -> (r: Result<(), FieldError>)
    ensures
        (forall|i: int| 0 <= i < vec@.len() ==> #[trigger] vec@[i].value != 0) <==> r
            matches Result::Ok(_),
        r matches Result::Err(e) ==> e.code@ == "tags_contain_nil_uuid"@,
{
    let mut i: usize = 0;
    while i < vec.len()
        invariant
            0 <= i <= vec@.len(),
            forall|j: int| 0 <= j < i ==> #[trigger] vec@[j].value != 0,
        decreases vec@.len() - i,
    {
        if vec[i].value == 0 {
            return Result::Err(FieldError { code: "tags_contain_nil_uuid".to_owned() });
        }
        i += 1;
    }
    Result::Ok(())
}

} // verus!
