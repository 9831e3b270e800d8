use vstd::prelude::*;

verus! {

/// Shortest identifier the ledger accepts.
pub const MIN_ACCOUNT_ID_LEN: usize = 2;

/// Longest identifier the ledger accepts.
pub const MAX_ACCOUNT_ID_LEN: usize = 64;

/// Lowercase letters and digits, the only non-separator characters of an
/// account identifier.
pub open spec fn is_account_alnum(c: char) -> bool {
    ('a' <= c && c <= 'z') || ('0' <= c && c <= '9')
}

/// The three separator characters of an account identifier.
pub open spec fn is_account_separator(c: char) -> bool {
    c == '-' || c == '_' || c == '.'
}

pub open spec fn is_account_char(c: char) -> bool {
    is_account_alnum(c) || is_account_separator(c)
}

/// The ledger's grammar for account identifiers: 2 to 64 characters, each a
/// lowercase letter, digit or separator (`-`, `_`, `.`), where a separator
/// never stands first, last, or next to another separator.
pub open spec fn account_id_valid(s: Seq<char>) -> bool {
    &&& MIN_ACCOUNT_ID_LEN <= s.len() <= MAX_ACCOUNT_ID_LEN
    &&& forall|i: int| 0 <= i < s.len() ==> is_account_char(#[trigger] s[i])
    &&& forall|i: int|
        0 < i < s.len() ==> !(is_account_separator(s[i - 1]) && is_account_separator(
            #[trigger] s[i],
        ))
    &&& !is_account_separator(s[0])
    &&& !is_account_separator(s[s.len() - 1])
}

/// Relies on `near_sdk::AccountId`'s `FromStr` (near-account-id's
/// `validate`): it accepts exactly the strings of 2 to 64 characters drawn
/// from lowercase letters, digits and `-`, `_`, `.`, in which a separator
/// never stands first, last, or next to another separator. Accepted strings
/// are all ASCII, so their byte length equals their character length.
#[verifier::external_body]
fn account_text_accepted(text: &str) -> (r: bool)
    ensures
        r == account_id_valid(text@),
{
    text.parse::<near_sdk::AccountId>().is_ok()
}

/// A validated ledger account identifier; immutable once constructed.
pub struct AccountId {
    text: String,
}

impl View for AccountId {
    type V = Seq<char>;

    closed spec fn view(&self) -> Seq<char> {
        self.text@
    }
}

impl AccountId {
    /// Every constructed identifier satisfies the ledger grammar.
    pub open spec fn wf(&self) -> bool {
        account_id_valid(self@)
    }

    /// Validates `text` and wraps it; rejects exactly the strings the ledger
    /// grammar rejects.
    pub fn new(text: String) -> (r: Option<AccountId>)
        ensures
            r is Some <==> account_id_valid(text@),
            r is Some ==> r.unwrap()@ == text@ && r.unwrap().wf(),
    {
        if account_text_accepted(text.as_str()) {
            Some(AccountId { text })
        } else {
            None
        }
    }

    pub fn as_str(&self) -> (r: &str)
        ensures
            r@ == self@,
    {
        self.text.as_str()
    }

    /// A fresh identifier with the same text.
    pub fn duplicate(&self) -> (r: AccountId)
        ensures
            r@ == self@,
    {
        AccountId { text: self.text.clone() }
    }

    /// Character-for-character identity comparison.
    pub fn same_as(&self, other: &AccountId) -> (r: bool)
        ensures
            r == (self@ == other@),
    {
        self.text == other.text
    }
}

/// Wraps text already proved to satisfy the grammar (the program's fixed
/// identifiers), still routing it through the ledger's own validator.
pub fn literal_id(text: &str) -> (r: AccountId)
    requires
        account_id_valid(text@),
    ensures
        r@ == text@,
        r.wf(),
{
    match AccountId::new(String::from_str(text)) {
        Option::Some(id) => id,
        Option::None => vstd::pervasive::unreached(),
    }
}

/// The identifier of a direct child account: `<label>.<parent>`.
pub open spec fn child_id_seq(label: Seq<char>, parent: Seq<char>) -> Seq<char> {
    label + seq!['.'] + parent
}

/// Derives and validates the direct-child identifier `<label>.<parent>`.
pub fn make_child_id(label: &str, parent: &AccountId) -> (r: Option<AccountId>)
    ensures
        r is Some <==> account_id_valid(child_id_seq(label@, parent@)),
        r is Some ==> r.unwrap()@ == child_id_seq(label@, parent@),
{
    proof {
        reveal_strlit(".");
    }
    let joined = String::from_str(label).concat(".").concat(parent.as_str());
    proof {
        assert(joined@ =~= child_id_seq(label@, parent@));
    }
    AccountId::new(joined)
}

/// Namespace law: gluing a valid label onto a valid parent with a dot yields
/// a valid identifier whenever the result still fits the length bound.
pub proof fn lemma_child_of_valid_parts(label: Seq<char>, parent: Seq<char>)
    requires
        account_id_valid(label),
        account_id_valid(parent),
        label.len() + 1 + parent.len() <= MAX_ACCOUNT_ID_LEN,
    ensures
        account_id_valid(child_id_seq(label, parent)),
{
    let c = child_id_seq(label, parent);
    let ll = label.len() as int;
    assert(c.len() == label.len() + 1 + parent.len());
    assert(forall|i: int| 0 <= i < ll ==> c[i] == label[i]);
    assert(c[ll] == '.');
    assert(forall|i: int| ll < i < c.len() ==> c[i] == parent[i - ll - 1]);
    assert forall|i: int| 0 <= i < c.len() implies is_account_char(#[trigger] c[i]) by {
        if i < ll {
            assert(is_account_char(label[i]));
        } else if i > ll {
            assert(is_account_char(parent[i - ll - 1]));
        }
    }
    assert forall|i: int|
        0 < i < c.len() implies !(is_account_separator(c[i - 1]) && is_account_separator(
        #[trigger] c[i],
    )) by {
        if i < ll {
            assert(!(is_account_separator(label[i - 1]) && is_account_separator(label[i])));
        } else if i == ll {
            assert(c[i - 1] == label[ll - 1]);
            assert(!is_account_separator(label[ll - 1]));
        } else if i == ll + 1 {
            assert(c[i] == parent[0]);
            assert(!is_account_separator(parent[0]));
        } else {
            assert(!(is_account_separator(parent[i - ll - 2]) && is_account_separator(
                parent[i - ll - 1],
            )));
        }
    }
    assert(c[0] == label[0]);
    assert(c[c.len() - 1] == parent[parent.len() - 1]);
}

} // verus!
