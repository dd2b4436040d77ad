//! Optional IRC identity verification — account-tag and nick bindings.

use vstd::prelude::*;

use super::config::bool_setting;
use crate::assoc::{find_key, insert_entry, table, unique_keys};
use crate::text::{
    concat3, eq_ignore_case, lower_seq, owned, split_char, split_on, split_once, split_once_str,
    str_eq, to_lower, trim, trim_seq,
};

verus! {

/// Policy for trusting wire nicks beyond MUDL login tokens.
#[derive(Debug, Clone, PartialEq)]
pub struct IrcIdentityPolicy {
    /// Reject PRIVMSG when the server omits `account-tag` or sends `account=*`.
    pub require_account_tag: bool,
    /// Normalized IRC nick → required SASL/account name from `account-tag`,
    /// at most one entry per nick.
    pub account_bindings: Vec<(String, String)>,
}

impl Default for IrcIdentityPolicy {
    fn default() -> (r: Self)
        ensures
            !r.require_account_tag,
            r.account_bindings@.len() == 0,
    {
        IrcIdentityPolicy { require_account_tag: false, account_bindings: Vec::new() }
    }
}

/// Required account per nick, by characters.
pub open spec fn binding_map(b: Seq<(String, String)>) -> Map<Seq<char>, Seq<char>> {
    table(b).map_values(|e: (String, String)| e.1@)
}

impl IrcIdentityPolicy {
    pub open spec fn strict(&self) -> bool {
        self.require_account_tag || self.account_bindings@.len() > 0
    }

    pub fn is_strict(&self) -> (r: bool)
        ensures
            r == self.strict(),
    {
        self.require_account_tag || self.account_bindings.len() > 0
    }
}

/// The account an `account-tag` names: trimmed, neither empty nor `*`.
pub open spec fn tagged_account(account: Option<Seq<char>>) -> Option<Seq<char>> {
    match account {
        Some(a) => if trim_seq(a).len() > 0 && trim_seq(a) != "*"@ {
            Some(trim_seq(a))
        } else {
            None
        },
        None => None,
    }
}

pub open spec fn unidentified_message() -> Seq<char> {
    "This network requires a registered/SASL-identified IRC account. Identify to NickServ or use SASL, then try again."@
}

pub open spec fn mismatch_message(nick: Seq<char>) -> Seq<char> {
    "IRC account verification failed for nick '"@ + nick
        + "'. Contact the operator if you believe this is an error."@
}

/// The outcome of identity verification: `None` accepts, `Some(msg)` rejects.
pub open spec fn identity_rejection(
    nick: Seq<char>,
    account: Option<Seq<char>>,
    require_tag: bool,
    bindings: Map<Seq<char>, Seq<char>>,
    strict: bool,
) -> Option<Seq<char>> {
    let acct = tagged_account(account);
    if !strict {
        None
    } else if require_tag && acct is None {
        Some(unidentified_message())
    } else if bindings.contains_key(nick) {
        match acct {
            Some(actual) => if lower_seq(actual) == lower_seq(bindings[nick]) {
                None
            } else {
                Some(mismatch_message(nick))
            },
            None => Some(mismatch_message(nick)),
        }
    } else {
        None
    }
}

/// Verify IRC `account-tag` against operator policy before accepting commands/OOC.
pub fn verify_irc_identity(nick: &str, account: Option<&str>, policy: &IrcIdentityPolicy) -> (r:
    Result<(), String>)
    requires
        unique_keys(policy.account_bindings@),
    ensures
        match identity_rejection(
            nick@,
            match account {
                Some(a) => Some(a@),
                None => None,
            },
            policy.require_account_tag,
            binding_map(policy.account_bindings@),
            policy.strict(),
        ) {
            None => r is Ok,
            Some(msg) => r matches Err(e) && e@ == msg,
        },
{
    if !policy.is_strict() {
        return Ok(());
    }
    let acct: Option<&str> = match account {
        Some(a) => {
            let t = trim(a);
            if t.unicode_len() > 0 && !str_eq(t, "*") {
                Some(t)
            } else {
                None
            }
        },
        None => None,
    };
    if policy.require_account_tag && acct.is_none() {
        return Err(
            owned(
                "This network requires a registered/SASL-identified IRC account. Identify to NickServ or use SASL, then try again.",
            ),
        );
    }
    match find_key(&policy.account_bindings, nick) {
        Some(i) => {
            let required = policy.account_bindings[i].1.as_str();
            match acct {
                Some(actual) => if eq_ignore_case(actual, required) {
                    Ok(())
                } else {
                    Err(
                        concat3(
                            "IRC account verification failed for nick '",
                            nick,
                            "'. Contact the operator if you believe this is an error.",
                        ),
                    )
                },
                None => Err(
                    concat3(
                        "IRC account verification failed for nick '",
                        nick,
                        "'. Contact the operator if you believe this is an error.",
                    ),
                ),
            }
        },
        None => Ok(()),
    }
}

/// An optional on/off setting; `default` when absent or unrecognised.
pub fn parse_bool_env(raw: Option<&str>, default: bool) -> (r: bool)
    ensures
        r == match raw {
            Some(s) => bool_setting(s@, default),
            None => default,
        },
{
    match raw {
        Some(s) => super::config::parse_bool(s, default),
        None => default,
    }
}

/// One `nick=account` entry of the bindings setting, when both sides are present.
pub open spec fn binding_entry(entry: Seq<char>) -> Option<(Seq<char>, Seq<char>)> {
    let e = trim_seq(entry);
    match split_once(e, "="@) {
        Some((nick, account)) => if lower_seq(trim_seq(nick)).len() > 0 && trim_seq(account).len()
            > 0 {
            Some((lower_seq(trim_seq(nick)), trim_seq(account)))
        } else {
            None
        },
        None => None,
    }
}

/// The bindings named by comma-separated entries, later entries winning.
pub open spec fn bindings_from(entries: Seq<Seq<char>>) -> Map<Seq<char>, Seq<char>>
    decreases entries.len(),
{
    if entries.len() == 0 {
        Map::empty()
    } else {
        let earlier = bindings_from(entries.drop_last());
        match binding_entry(entries.last()) {
            Some((nick, account)) => earlier.insert(nick, account),
            None => earlier,
        }
    }
}

/// `MUDL_IRC_ACCOUNT_BINDINGS=alice=MyAccount,bob=OtherAccount`
pub fn parse_account_bindings(raw: Option<&str>) -> (r: Vec<(String, String)>)
    ensures
        unique_keys(r@),
        binding_map(r@) == match raw {
            Some(s) => bindings_from(split_char(s@, ',')),
            None => Map::empty(),
        },
{
    let mut out: Vec<(String, String)> = Vec::new();
    let raw = match raw {
        Some(raw) => raw,
        None => {
            assert(binding_map(out@) =~= Map::empty());
            return out;
        },
    };
    let entries = split_on(raw, ',');
    let ghost es = split_char(raw@, ',');
    let mut i: usize = 0;
    assert(binding_map(out@) =~= Map::empty());
    assert(es.take(0) =~= Seq::<Seq<char>>::empty());
    while i < entries.len()
        invariant
            0 <= i <= entries@.len(),
            es == split_char(raw@, ','),
            crate::text::views(entries@) == es,
            unique_keys(out@),
            binding_map(out@) == bindings_from(es.take(i as int)),
        decreases entries.len() - i,
    {
        let entry = trim(entries[i].as_str());
        assert(es.take(i + 1).drop_last() =~= es.take(i as int));
        assert(es.take(i + 1).last() == entries@[i as int]@);
        if entry.unicode_len() > 0 {
            if let Some((nick, account)) = split_once_str(entry, "=") {
                let nick = to_lower(trim(nick));
                let account = trim(account);
                if nick.unicode_len() > 0 && account.unicode_len() > 0 {
                    let ghost b0 = out@;
                    insert_entry(&mut out, (nick, owned(account)));
                    assert(binding_map(out@) =~= binding_map(b0).insert(nick@, account@));
                }
            }
        } else {
            assert(split_once(entry@, "="@) is None) by {
                reveal_strlit("=");
                assert(!crate::text::contains_seq(entry@, "="@));
            }
        }
        i += 1;
    }
    assert(es.take(entries@.len() as int) =~= es);
    out
}

/// Without a strict policy every nick is accepted, whatever account it carries.
pub proof fn law_lenient_policy_accepts(
    nick: Seq<char>,
    account: Option<Seq<char>>,
    require_tag: bool,
    bindings: Map<Seq<char>, Seq<char>>,
)
    ensures
        identity_rejection(nick, account, require_tag, bindings, false) is None,
{
}

/// Under a strict policy, a nick without a binding is accepted when its account
/// tag is present or not required.
pub proof fn law_unbound_nick_accepted(
    nick: Seq<char>,
    account: Option<Seq<char>>,
    require_tag: bool,
    bindings: Map<Seq<char>, Seq<char>>,
)
    requires
        !bindings.contains_key(nick),
        require_tag ==> tagged_account(account) is Some,
    ensures
        identity_rejection(nick, account, require_tag, bindings, true) is None,
{
}

/// A bound nick is accepted exactly when its account tag names the bound account
/// up to ASCII case; otherwise it is refused with the mismatch message (or,
/// when a tag is required and missing, the unidentified message).
pub proof fn law_bound_nick_needs_its_account(
    nick: Seq<char>,
    account: Option<Seq<char>>,
    require_tag: bool,
    bindings: Map<Seq<char>, Seq<char>>,
)
    requires
        bindings.contains_key(nick),
    ensures
        (identity_rejection(nick, account, require_tag, bindings, true) is None) <==> (tagged_account(
            account,
        ) matches Some(a) && lower_seq(a) == lower_seq(bindings[nick])),
        identity_rejection(nick, account, require_tag, bindings, true) is Some ==> (identity_rejection(
            nick,
            account,
            require_tag,
            bindings,
            true,
        ) == Some(mismatch_message(nick)) || identity_rejection(
            nick,
            account,
            require_tag,
            bindings,
            true,
        ) == Some(unidentified_message())),
{
}

} // verus!
