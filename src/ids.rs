use vstd::prelude::*;
use vstd::string::StringExecFns;

verus! {

/// The address of an agent on the bus: `label.account_label.audience`.
#[derive(Debug)]
pub struct AgentId {
    pub label: String,
    pub account_label: String,
    pub audience: String,
}

impl View for AgentId {
    type V = (Seq<char>, Seq<char>, Seq<char>);

    open spec fn view(&self) -> (Seq<char>, Seq<char>, Seq<char>) {
        (self.label@, self.account_label@, self.audience@)
    }
}

/// `account_label.audience`
pub open spec fn account_text(a: (Seq<char>, Seq<char>, Seq<char>)) -> Seq<char> {
    a.1 + "."@ + a.2
}

/// `label.account_label.audience`
pub open spec fn agent_text(a: (Seq<char>, Seq<char>, Seq<char>)) -> Seq<char> {
    a.0 + "."@ + account_text(a)
}

impl AgentId {
    pub fn new(label: &str, account_label: &str, audience: &str) -> (r: AgentId)
        ensures
            r@ == (label@, account_label@, audience@),
    {
        AgentId {
            label: String::from_str(label),
            account_label: String::from_str(account_label),
            audience: String::from_str(audience),
        }
    }

    pub fn duplicate(&self) -> (r: AgentId)
        ensures
            r == *self,
            r@ == self@,
    {
        AgentId {
            label: self.label.clone(),
            account_label: self.account_label.clone(),
            audience: self.audience.clone(),
        }
    }

    pub fn same_as(&self, other: &AgentId) -> (r: bool)
        ensures
            r == (self@ == other@),
    {
        self.label == other.label && self.account_label == other.account_label
            && self.audience == other.audience
    }

    /// The account part: `account_label.audience`.
    pub fn account_id(&self) -> (r: String)
        ensures
            r@ == account_text(self@),
    {
        let a = self.account_label.clone();
        let a = a.concat(".");
        a.concat(self.audience.as_str())
    }

    /// The whole address: `label.account_label.audience`.
    pub fn to_text(&self) -> (r: String)
        ensures
            r@ == agent_text(self@),
    {
        let l = self.label.clone();
        let l = l.concat(".");
        let acc = self.account_id();
        l.concat(acc.as_str())
    }
}

/// The lower-case hexadecimal digit of `n`, for `n < 16`.
pub open spec fn hex_digit(n: u128) -> char {
    if n == 0 { '0' } else if n == 1 { '1' } else if n == 2 { '2' } else if n == 3 { '3' }
    else if n == 4 { '4' } else if n == 5 { '5' } else if n == 6 { '6' } else if n == 7 { '7' }
    else if n == 8 { '8' } else if n == 9 { '9' } else if n == 10 { 'a' } else if n == 11 { 'b' }
    else if n == 12 { 'c' } else if n == 13 { 'd' } else if n == 14 { 'e' } else { 'f' }
}

/// The `k`-th four-bit digit of `v`, from the most significant.
pub open spec fn nibble(v: u128, k: int) -> u128 {
    (v >> ((4 * (31 - k)) as u128)) & 15u128
}

/// Which digit of the identifier stands at position `p` of its text; the
/// positions 8, 13, 18 and 23 hold hyphens.
pub open spec fn digit_at(p: int) -> int {
    if p < 8 { p } else if p < 13 { p - 1 } else if p < 18 { p - 2 } else if p < 23 { p - 3 } else { p - 4 }
}

/// The hyphenated text of the 128-bit identifier `v`: 36 characters, its 32
/// lower-case hexadecimal digits from the most significant, in groups of 8,
/// 4, 4, 4 and 12 joined by hyphens.
pub open spec fn uuid_text(v: u128) -> Seq<char> {
    Seq::new(
        36,
        |p: int|
            if p == 8 || p == 13 || p == 18 || p == 23 {
                '-'
            } else {
                hex_digit(nibble(v, digit_at(p)))
            },
    )
}

/// Relies on uuid's `Uuid::from_u128`, which keeps the bytes of `v` from
/// the most significant, and its `Display`, which writes them as the
/// lower-case hyphenated form.
#[verifier::external_body]
pub(crate) fn uuid_to_text(v: u128) -> (r: String)
    ensures
        r@ == uuid_text(v),
        r@.len() == 36,
{
    uuid::Uuid::from_u128(v).to_string()
}

} // verus!
