use vstd::prelude::*;

use crate::error::ConversionError;
use crate::json::json_obj_view;
use crate::json::Json;
use crate::message::accounts_seq_view;
use crate::message::AccountEntries;
use crate::message::MessageV;

verus! {

/// Deferred-validation builder for [`crate::message::AclAccountsMessage`].
///
/// Every field holds either its resolved value or the error message
/// recorded for it. A required field starts in the error state, an
/// optional field starts holding its default; setters may be called in any
/// order, and [`Self::build`] reports the first recorded error in declared
/// field order (`accounts`, then `metadata`).
#[derive(Debug)]
pub struct AclAccountsMessage {
    pub accounts: Result<Vec<(String, AccountEntries)>, String>,
    pub metadata: Result<Vec<(String, Json)>, String>,
}

impl AclAccountsMessage {
    /// Both fields resolved, and resolved to a well-formed message:
    /// distinct account names, distinct keys within each account,
    /// distinct metadata keys.
    pub open spec fn resolved_wf(self) -> bool {
        &&& self.accounts is Ok
        &&& self.metadata is Ok
        &&& (MessageV {
            accounts: accounts_seq_view(self.accounts->Ok_0@),
            metadata: json_obj_view(self.metadata->Ok_0@),
        }).wf()
    }
}

impl Default for AclAccountsMessage {
    /// The starting state: `accounts` still owed, `metadata` defaulted
    /// to the empty bag.
    fn default() -> (r: AclAccountsMessage)
        ensures
            r.accounts matches Err(m) && m@ == "no value supplied for accounts"@,
            r.metadata matches Ok(v) && v@.len() == 0,
    {
        AclAccountsMessage {
            accounts: Err(String::from_str("no value supplied for accounts")),
            metadata: Ok(Vec::new()),
        }
    }
}

impl AclAccountsMessage {
    /// Records a value for the `accounts` field.
    pub fn accounts(self, value: Vec<(String, AccountEntries)>) -> (r: AclAccountsMessage)
        ensures
            r.accounts matches Ok(v) && v == value,
            r.metadata == self.metadata,
    {
        AclAccountsMessage { accounts: Ok(value), metadata: self.metadata }
    }

    /// Records a value for the `metadata` field.
    pub fn metadata(self, value: Vec<(String, Json)>) -> (r: AclAccountsMessage)
        ensures
            r.metadata matches Ok(v) && v == value,
            r.accounts == self.accounts,
    {
        AclAccountsMessage { accounts: self.accounts, metadata: Ok(value) }
    }

    /// Records the `accounts` field from a JSON value; a conversion
    /// failure is stored as this field's error, not raised.
    pub fn accounts_json(self, value: &Json) -> (r: AclAccountsMessage)
        ensures
            crate::codec::accounts_field_from_jsonv(value@) matches Ok(a) ==> (
            r.accounts matches Ok(v) && crate::message::accounts_seq_view(v@) == a),
            crate::codec::accounts_field_from_jsonv(value@) matches Err(e) ==> (
            r.accounts matches Err(m) && m@ == "error converting supplied value for accounts: "@
                + crate::error::decode_error_text(e)),
            r.metadata == self.metadata,
    {
        match crate::codec::accounts_field_from_json(value) {
            Ok(v) => AclAccountsMessage { accounts: Ok(v), metadata: self.metadata },
            Err(e) => {
                let msg = String::from_str("error converting supplied value for accounts: ")
                    .concat(e.message());
                AclAccountsMessage { accounts: Err(msg), metadata: self.metadata }
            },
        }
    }

    /// Records the `metadata` field from a JSON value; a conversion
    /// failure is stored as this field's error, not raised.
    pub fn metadata_json(self, value: &Json) -> (r: AclAccountsMessage)
        ensures
            crate::codec::metadata_field_from_jsonv(value@) matches Ok(b) ==> (
            r.metadata matches Ok(v) && crate::json::json_obj_view(v@) == b),
            crate::codec::metadata_field_from_jsonv(value@) matches Err(e) ==> (
            r.metadata matches Err(m) && m@ == "error converting supplied value for metadata: "@
                + crate::error::decode_error_text(e)),
            r.accounts == self.accounts,
    {
        match crate::codec::metadata_field_from_json(value) {
            Ok(v) => AclAccountsMessage { accounts: self.accounts, metadata: Ok(v) },
            Err(e) => {
                let msg = String::from_str("error converting supplied value for metadata: ")
                    .concat(e.message());
                AclAccountsMessage { accounts: self.accounts, metadata: Err(msg) }
            },
        }
    }

    /// Materializes the record: returns the first recorded error in
    /// declared field order, else the record built from the resolved
    /// values.
    pub fn build(self) -> (r: Result<crate::message::AclAccountsMessage, ConversionError>)
        ensures
            self.accounts is Err ==> r is Err && r->Err_0@ == self.accounts->Err_0@,
            self.accounts is Ok && self.metadata is Err ==> r is Err && r->Err_0@
                == self.metadata->Err_0@,
            self.accounts is Ok && self.metadata is Ok ==> r is Ok && r->Ok_0.accounts
                == self.accounts->Ok_0 && r->Ok_0.metadata == self.metadata->Ok_0,
            self.resolved_wf() ==> r is Ok && r->Ok_0@.wf(),
    {
        match self.accounts {
            Err(m) => Err(ConversionError::new(m)),
            Ok(accounts) => match self.metadata {
                Err(m) => Err(ConversionError::new(m)),
                Ok(metadata) => Ok(crate::message::AclAccountsMessage { accounts, metadata }),
            },
        }
    }
}

impl From<crate::message::AclAccountsMessage> for AclAccountsMessage {
    /// A builder primed with every field of an existing record.
    fn from(value: crate::message::AclAccountsMessage) -> (r: AclAccountsMessage)
        ensures
            r.accounts matches Ok(a) && a == value.accounts,
            r.metadata matches Ok(m) && m == value.metadata,
    {
        AclAccountsMessage { accounts: Ok(value.accounts), metadata: Ok(value.metadata) }
    }
}

impl vstd::std_specs::convert::FromSpecImpl<crate::message::AclAccountsMessage>
    for AclAccountsMessage {
    open spec fn obeys_from_spec() -> bool {
        true
    }

    open spec fn from_spec(v: crate::message::AclAccountsMessage) -> AclAccountsMessage {
        AclAccountsMessage { accounts: Ok(v.accounts), metadata: Ok(v.metadata) }
    }
}

} // verus!
