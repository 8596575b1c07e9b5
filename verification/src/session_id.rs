use vstd::prelude::*;

verus! {

/// Whether a character is a hexadecimal digit in lower case.
pub open spec fn lower_hex(c: char) -> bool {
    '0' <= c <= '9' || 'a' <= c <= 'f'
}

/// Whether a text is a random (version 4) UUID in groups of 8, 4, 4, 4 and 12
/// digits with a hyphen between them. WorkBuddy does not recognise a session
/// whose id lacks the hyphens.
pub open spec fn is_session_id(id: Seq<char>) -> bool {
    &&& id.len() == 36
    &&& forall|i: int|
        0 <= i < 36 ==> if i == 8 || i == 13 || i == 18 || i == 23 {
            #[trigger] id[i] == '-'
        } else {
            lower_hex(id[i])
        }
    &&& id[14] == '4'
    &&& (id[19] == '8' || id[19] == '9' || id[19] == 'a' || id[19] == 'b')
}

/// `uuid::Uuid::new_v4`, written out by its `Display`: a random UUID of version 4
/// and of the RFC's variant, in lower case and with hyphens. Which one it is, is
/// left to chance, and so is that no two are the same. It panics where the
/// operating system has no random numbers to give.
#[verifier::external_body]
pub(crate) fn new_session_id() -> (id: String)
    ensures
        is_session_id(id@),
{
    uuid::Uuid::new_v4().to_string()
}

} // verus!
