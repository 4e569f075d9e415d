//! Classification of an address from the replies of the two remote checks.
use vstd::prelude::*;
use crate::wallet::AddressType;

verus! {

/// `pat` occurs in `text` as a contiguous run of characters.
pub open spec fn occurs_in(text: Seq<char>, pat: Seq<char>) -> bool {
    exists|i: int|
        0 <= i && i + pat.len() <= text.len() && #[trigger] text.subrange(i, i + pat.len()) == pat
}

/// Role given by the master check: accepted unless the reply carries the
/// error marker; a failed request accepts nothing.
pub open spec fn master_role(reply: Result<String, String>) -> AddressType {
    match reply {
        Ok(text) => if occurs_in(text@, "Error"@) {
            AddressType::NULL
        } else {
            AddressType::MASTER
        },
        Err(_) => AddressType::NULL,
    }
}

/// Role given by the sub check: accepted only if the reply carries the
/// success phrase; a failed request accepts nothing.
pub open spec fn sub_role(reply: Result<String, String>) -> AddressType {
    match reply {
        Ok(text) => if occurs_in(text@, "Task registered successfully"@) {
            AddressType::SUB
        } else {
            AddressType::NULL
        },
        Err(_) => AddressType::NULL,
    }
}

/// The master role wins over the sub role; with neither the address is unclassified.
pub open spec fn combined_role(master: AddressType, sub: AddressType) -> AddressType {
    if master == AddressType::MASTER {
        AddressType::MASTER
    } else if sub == AddressType::SUB {
        AddressType::SUB
    } else {
        AddressType::NULL
    }
}

/// Role of an address from the replies of the master check and the sub
/// check. A failed request on either side leaves the address unclassified.
pub open spec fn role_of_replies(master: Result<String, String>, sub: Result<String, String>) -> AddressType {
    if master is Err || sub is Err {
        AddressType::NULL
    } else {
        combined_role(master_role(master), sub_role(sub))
    }
}

/// Relies on `str::contains`: true exactly when `pat` occurs in `text`.
#[verifier::external_body]
fn text_contains(text: &str, pat: &str) -> (r: bool)
    ensures
        r == occurs_in(text@, pat@),
{
    text.contains(pat)
}

/// Reads the reply of the master check.
pub fn mstaddress(reply: &Result<String, String>) -> (r: AddressType)
    ensures
        r == master_role(*reply),
{
    match reply {
        Ok(text) => {
            if text_contains(text.as_str(), "Error") {
                AddressType::NULL
            } else {
                AddressType::MASTER
            }
        },
        Err(_) => AddressType::NULL,
    }
}

/// Reads the reply of the sub check.
pub fn subaddress(reply: &Result<String, String>) -> (r: AddressType)
    ensures
        r == sub_role(*reply),
{
    match reply {
        Ok(text) => {
            if text_contains(text.as_str(), "Task registered successfully") {
                AddressType::SUB
            } else {
                AddressType::NULL
            }
        },
        Err(_) => AddressType::NULL,
    }
}

/// Role of an address from both replies; `MASTER` takes precedence over
/// `SUB`, and a failed request on either side gives `NULL`.
pub fn classify(master_reply: &Result<String, String>, sub_reply: &Result<String, String>) -> (r:
    AddressType)
    ensures
        r == role_of_replies(*master_reply, *sub_reply),
{
    if master_reply.is_err() || sub_reply.is_err() {
        return AddressType::NULL;
    }
    let master = mstaddress(master_reply);
    let sub = subaddress(sub_reply);
    if master == AddressType::MASTER {
        AddressType::MASTER
    } else if sub == AddressType::SUB {
        AddressType::SUB
    } else {
        AddressType::NULL
    }
}

} // verus!
