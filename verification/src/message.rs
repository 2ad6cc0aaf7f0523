use vstd::prelude::*;

use crate::error::ConversionError;
use crate::json::JsonV;

verus! {

/// The closed set of keys an account entry may carry.
///
/// Declaration order is the canonical order of the variants; the derived
/// comparisons follow it.
#[derive(Clone, Copy, Debug, PartialEq, Eq, Structural, Hash, PartialOrd, Ord)]
pub enum AclAccountsMessageAccountsValueKey {
    Categories,
    Keys,
    Channels,
    Commands,
    Profile,
}

/// The canonical wire string of each enum variant.
pub open spec fn wire_of(k: AclAccountsMessageAccountsValueKey) -> Seq<char> {
    match k {
        AclAccountsMessageAccountsValueKey::Categories => "categories"@,
        AclAccountsMessageAccountsValueKey::Keys => "keys"@,
        AclAccountsMessageAccountsValueKey::Channels => "channels"@,
        AclAccountsMessageAccountsValueKey::Commands => "commands"@,
        AclAccountsMessageAccountsValueKey::Profile => "profile"@,
    }
}

/// The variant a wire string denotes, if any: exact, case-sensitive match
/// against the closed set.
pub open spec fn key_of_wire(s: Seq<char>) -> Option<AclAccountsMessageAccountsValueKey> {
    if s == "categories"@ {
        Some(AclAccountsMessageAccountsValueKey::Categories)
    } else if s == "keys"@ {
        Some(AclAccountsMessageAccountsValueKey::Keys)
    } else if s == "channels"@ {
        Some(AclAccountsMessageAccountsValueKey::Channels)
    } else if s == "commands"@ {
        Some(AclAccountsMessageAccountsValueKey::Commands)
    } else if s == "profile"@ {
        Some(AclAccountsMessageAccountsValueKey::Profile)
    } else {
        None
    }
}

/// Parsing a canonical wire string gives back its variant: the five wire
/// strings are pairwise distinct.
pub proof fn lemma_key_wire_round_trip()
    ensures
        forall|k: AclAccountsMessageAccountsValueKey|
            #[trigger] key_of_wire(wire_of(k)) == Some(k),
{
    reveal_strlit("categories");
    reveal_strlit("keys");
    reveal_strlit("channels");
    reveal_strlit("commands");
    reveal_strlit("profile");
    assert("categories"@.len() == 10);
    assert("keys"@.len() == 4);
    assert("channels"@.len() == 8);
    assert("commands"@.len() == 8);
    assert("profile"@.len() == 7);
    assert("channels"@[1] == 'h' && "commands"@[1] == 'o');
    assert(key_of_wire(wire_of(AclAccountsMessageAccountsValueKey::Categories))
        == Some(AclAccountsMessageAccountsValueKey::Categories));
    assert(key_of_wire(wire_of(AclAccountsMessageAccountsValueKey::Keys))
        == Some(AclAccountsMessageAccountsValueKey::Keys));
    assert(key_of_wire(wire_of(AclAccountsMessageAccountsValueKey::Channels))
        == Some(AclAccountsMessageAccountsValueKey::Channels));
    assert(key_of_wire(wire_of(AclAccountsMessageAccountsValueKey::Commands))
        == Some(AclAccountsMessageAccountsValueKey::Commands));
    assert(key_of_wire(wire_of(AclAccountsMessageAccountsValueKey::Profile))
        == Some(AclAccountsMessageAccountsValueKey::Profile));
}

impl AclAccountsMessageAccountsValueKey {
    /// The canonical wire string of this variant; total.
    pub fn wire_str(&self) -> (r: &'static str)
        ensures
            r@ == wire_of(*self),
    {
        match self {
            AclAccountsMessageAccountsValueKey::Categories => "categories",
            AclAccountsMessageAccountsValueKey::Keys => "keys",
            AclAccountsMessageAccountsValueKey::Channels => "channels",
            AclAccountsMessageAccountsValueKey::Commands => "commands",
            AclAccountsMessageAccountsValueKey::Profile => "profile",
        }
    }

    /// Parses a wire string; exact, case-sensitive match against the closed
    /// set, with no default variant.
    pub fn from_str(value: &str) -> (r: Result<
        AclAccountsMessageAccountsValueKey,
        ConversionError,
    >)
        ensures
            r matches Ok(k) ==> key_of_wire(value@) == Some(k) && value@ == wire_of(k),
            r is Err <==> key_of_wire(value@) is None,
            r matches Err(e) ==> e@ == "invalid value"@,
    {
        let v = value.to_owned();
        if v == String::from_str("categories") {
            Ok(AclAccountsMessageAccountsValueKey::Categories)
        } else if v == String::from_str("keys") {
            Ok(AclAccountsMessageAccountsValueKey::Keys)
        } else if v == String::from_str("channels") {
            Ok(AclAccountsMessageAccountsValueKey::Channels)
        } else if v == String::from_str("commands") {
            Ok(AclAccountsMessageAccountsValueKey::Commands)
        } else if v == String::from_str("profile") {
            Ok(AclAccountsMessageAccountsValueKey::Profile)
        } else {
            Err(ConversionError::new(String::from_str("invalid value")))
        }
    }
}

/// An inner account value: either an ordered sequence of strings or a
/// single string, with no wire-format tag.
#[derive(Clone, Debug)]
pub enum AclAccountsMessageAccountsValueValue {
    Array(Vec<String>),
    String(String),
}

/// The mathematical model of an inner account value.
pub ghost enum ValueV {
    Array(Seq<Seq<char>>),
    String(Seq<char>),
}

/// The views of a sequence of strings.
pub open spec fn strs_view(s: Seq<String>) -> Seq<Seq<char>> {
    Seq::new(s.len(), |i: int| s[i]@)
}

impl View for AclAccountsMessageAccountsValueValue {
    type V = ValueV;

    open spec fn view(&self) -> ValueV {
        match self {
            AclAccountsMessageAccountsValueValue::Array(items) => ValueV::Array(
                strs_view(items@),
            ),
            AclAccountsMessageAccountsValueValue::String(s) => ValueV::String(s@),
        }
    }
}

impl From<Vec<String>> for AclAccountsMessageAccountsValueValue {
    /// Direct construction from a native sequence of strings, bypassing
    /// wire parsing.
    fn from(value: Vec<String>) -> (r: AclAccountsMessageAccountsValueValue)
        ensures
            r == AclAccountsMessageAccountsValueValue::Array(value),
    {
        AclAccountsMessageAccountsValueValue::Array(value)
    }
}

impl vstd::std_specs::convert::FromSpecImpl<Vec<String>>
    for AclAccountsMessageAccountsValueValue {
    open spec fn obeys_from_spec() -> bool {
        true
    }

    open spec fn from_spec(v: Vec<String>) -> AclAccountsMessageAccountsValueValue {
        AclAccountsMessageAccountsValueValue::Array(v)
    }
}

impl AclAccountsMessageAccountsValueValue {
    /// An equal copy of this value.
    pub fn deep_clone(&self) -> (r: AclAccountsMessageAccountsValueValue)
        ensures
            r@ == self@,
    {
        match self {
            AclAccountsMessageAccountsValueValue::Array(items) => {
                let mut out: Vec<String> = Vec::new();
                let mut i: usize = 0;
                while i < items.len()
                    invariant
                        i <= items@.len(),
                        out@.len() == i,
                        forall|k: int| 0 <= k < i ==> out@[k] == items@[k],
                    decreases items@.len() - i,
                {
                    out.push(items[i].clone());
                    i = i + 1;
                }
                proof {
                    assert(strs_view(out@) =~= strs_view(items@));
                }
                AclAccountsMessageAccountsValueValue::Array(out)
            },
            AclAccountsMessageAccountsValueValue::String(s) => {
                AclAccountsMessageAccountsValueValue::String(s.clone())
            },
        }
    }
}

/// One account's entries: a map from enum key to value, kept in insertion
/// order as a sequence of pairs with pairwise-distinct keys.
pub type AccountEntries = Vec<
    (AclAccountsMessageAccountsValueKey, AclAccountsMessageAccountsValueValue),
>;

/// Message for ACL accounts: a required map from account name to that
/// account's entries, and an optional open metadata bag, empty by default.
#[derive(Debug)]
pub struct AclAccountsMessage {
    pub accounts: Vec<(String, AccountEntries)>,
    pub metadata: Vec<(String, crate::json::Json)>,
}

/// The mathematical model of a message.
pub ghost struct MessageV {
    pub accounts: Seq<(Seq<char>, Seq<(AclAccountsMessageAccountsValueKey, ValueV)>)>,
    pub metadata: Seq<(Seq<char>, JsonV)>,
}

pub open spec fn entries_seq_view(
    s: Seq<(AclAccountsMessageAccountsValueKey, AclAccountsMessageAccountsValueValue)>,
) -> Seq<(AclAccountsMessageAccountsValueKey, ValueV)> {
    Seq::new(s.len(), |i: int| (s[i].0, s[i].1@))
}

/// The model of the accounts map.
pub open spec fn accounts_seq_view(s: Seq<(String, AccountEntries)>) -> Seq<
    (Seq<char>, Seq<(AclAccountsMessageAccountsValueKey, ValueV)>),
> {
    Seq::new(s.len(), |i: int| (s[i].0@, entries_seq_view(s[i].1@)))
}

impl View for AclAccountsMessage {
    type V = MessageV;

    open spec fn view(&self) -> MessageV {
        MessageV {
            accounts: accounts_seq_view(self.accounts@),
            metadata: crate::json::json_obj_view(self.metadata@),
        }
    }
}

/// No two entries of an association sequence share a key.
pub open spec fn distinct_string_keys<T>(s: Seq<(Seq<char>, T)>) -> bool {
    forall|i: int, j: int| 0 <= i < j < s.len() ==> s[i].0 != s[j].0
}

pub open spec fn distinct_entry_keys(
    s: Seq<(AclAccountsMessageAccountsValueKey, ValueV)>,
) -> bool {
    forall|i: int, j: int| 0 <= i < j < s.len() ==> s[i].0 != s[j].0
}

impl MessageV {
    /// A well-formed message: account names, the keys within each account,
    /// and metadata keys are each pairwise distinct.
    pub open spec fn wf(self) -> bool {
        &&& distinct_string_keys(self.accounts)
        &&& forall|i: int|
            0 <= i < self.accounts.len() ==> distinct_entry_keys(#[trigger] self.accounts[i].1)
        &&& distinct_string_keys(self.metadata)
    }
}

impl AclAccountsMessage {
    /// An equal copy of this message.
    pub fn deep_clone(&self) -> (r: AclAccountsMessage)
        ensures
            r@ == self@,
    {
        let mut accounts: Vec<(String, AccountEntries)> = Vec::new();
        let mut i: usize = 0;
        while i < self.accounts.len()
            invariant
                i <= self.accounts@.len(),
                accounts@.len() == i,
                forall|k: int|
                    0 <= k < i ==> (#[trigger] accounts@[k]).0@ == self.accounts@[k].0@
                        && entries_seq_view(accounts@[k].1@) == entries_seq_view(
                        self.accounts@[k].1@,
                    ),
            decreases self.accounts@.len() - i,
        {
            let name = self.accounts[i].0.clone();
            let src = &self.accounts[i].1;
            let mut entries: AccountEntries = Vec::new();
            let mut jj: usize = 0;
            while jj < src.len()
                invariant
                    jj <= src@.len(),
                    entries@.len() == jj,
                    forall|k: int|
                        0 <= k < jj ==> (#[trigger] entries@[k]).0 == src@[k].0
                            && entries@[k].1@ == src@[k].1@,
                decreases src@.len() - jj,
            {
                let key = src[jj].0;
                let val = src[jj].1.deep_clone();
                entries.push((key, val));
                jj = jj + 1;
            }
            proof {
                assert(entries_seq_view(entries@) =~= entries_seq_view(src@));
            }
            accounts.push((name, entries));
            i = i + 1;
        }
        proof {
            assert(accounts_seq_view(accounts@) =~= accounts_seq_view(self.accounts@));
        }
        let mut metadata: Vec<(String, crate::json::Json)> = Vec::new();
        let mut m: usize = 0;
        while m < self.metadata.len()
            invariant
                m <= self.metadata@.len(),
                metadata@.len() == m,
                forall|k: int|
                    0 <= k < m ==> (#[trigger] metadata@[k]).0@ == self.metadata@[k].0@
                        && crate::json::json_view(metadata@[k].1) == crate::json::json_view(
                        self.metadata@[k].1,
                    ),
            decreases self.metadata@.len() - m,
        {
            let name = self.metadata[m].0.clone();
            let val = self.metadata[m].1.deep_clone();
            metadata.push((name, val));
            m = m + 1;
        }
        proof {
            crate::json::lemma_json_obj_view(metadata@);
            crate::json::lemma_json_obj_view(self.metadata@);
            assert(crate::json::json_obj_view(metadata@) =~= crate::json::json_obj_view(
                self.metadata@,
            ));
        }
        AclAccountsMessage { accounts, metadata }
    }

    /// A fresh builder: `accounts` still owed, `metadata` defaulted empty.
    pub fn builder() -> (r: crate::builder::AclAccountsMessage)
        ensures
            r.accounts matches Err(m) && m@ == "no value supplied for accounts"@,
            r.metadata matches Ok(v) && v@.len() == 0,
    {
        crate::builder::AclAccountsMessage::default()
    }
}

impl From<&AclAccountsMessage> for AclAccountsMessage {
    /// An equal copy of an existing message.
    fn from(value: &AclAccountsMessage) -> (r: AclAccountsMessage)
        ensures
            r@ == value@,
    {
        value.deep_clone()
    }
}

impl vstd::std_specs::convert::FromSpecImpl<&AclAccountsMessage> for AclAccountsMessage {
    open spec fn obeys_from_spec() -> bool {
        false
    }

    open spec fn from_spec(v: &AclAccountsMessage) -> AclAccountsMessage {
        *v
    }
}

} // verus!
