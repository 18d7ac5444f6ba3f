//! The scoped, prefix-aware key resolver: a key token is normalized, joined
//! to the pending combination, and resolved against the active scopes from
//! most specific to global; the first scope with an exact binding wins, and
//! a combination that is still a prefix of some binding waits for more keys.

use vstd::prelude::*;
use vstd::string::{StringExecFns, StringSliceAdditionalSpecFns};
use vstd::utf8::encode_utf8;

use crate::action::{Action, ActionV};
use crate::config::{merged_lookup, Config, ConfigV, MappingScope};
use crate::text::{starts_with, starts_with_at, str_to_chars};

verus! {

/// The canonical token of one key press: control combinations become
/// `<c-token>`, other named keys (any token of more than one byte) become
/// `<token>`, a plain character stands for itself.
pub open spec fn normalize_key_spec(token: Seq<char>, token_bytes: int, ctrl: bool) -> Seq<char> {
    if ctrl {
        "<c-"@ + token + ">"@
    } else if token_bytes > 1 {
        "<"@ + token + ">"@
    } else {
        token
    }
}

/// Normalize one key token.
pub fn normalize_key(token: &String, ctrl: bool) -> (r: String)
    ensures
        r@ == normalize_key_spec(token@, (encode_utf8(token@).len() as usize) as int, ctrl),
{
    if ctrl {
        let mut r = String::from_str("<c-");
        r.append(token.as_str());
        r.append(">");
        assert(r@ =~= "<c-"@ + token@ + ">"@);
        return r;
    }
    let ts = token.as_str();
    assert(ts.spec_bytes() == encode_utf8(token@));
    if ts.len() > 1 {
        let mut r = String::from_str("<");
        r.append(token.as_str());
        r.append(">");
        assert(r@ =~= "<"@ + token@ + ">"@);
        r
    } else {
        token.clone()
    }
}

/// The action an exact, non-no-op binding of one scope gives a combination.
pub open spec fn exact_at(c: ConfigV, scope: MappingScope, keys: Seq<char>) -> Option<ActionV> {
    match merged_lookup(c.default_bindings, c.user_bindings, scope, keys) {
        Some(a) => if a == ActionV::Nop {
            None
        } else {
            Some(a)
        },
        None => None,
    }
}

/// The action of the first scope in the list with an exact binding.
pub open spec fn first_exact(c: ConfigV, scopes: Seq<MappingScope>, keys: Seq<char>) -> Option<
    ActionV,
>
    decreases scopes.len(),
{
    if scopes.len() == 0 {
        None
    } else {
        match exact_at(c, scopes[0], keys) {
            Some(a) => Some(a),
            None => first_exact(c, scopes.skip(1), keys),
        }
    }
}

/// Some non-no-op binding of the scope has the combination as a prefix.
pub open spec fn scope_has_prefix(c: ConfigV, scope: MappingScope, keys: Seq<char>) -> bool {
    exists|k: Seq<char>|
        match #[trigger] merged_lookup(c.default_bindings, c.user_bindings, scope, k) {
            Some(a) => a != ActionV::Nop && starts_with(k, keys),
            None => false,
        }
}

/// Some scope of the list still has the combination as a prefix.
pub open spec fn any_prefix(c: ConfigV, scopes: Seq<MappingScope>, keys: Seq<char>) -> bool {
    exists|si: int| 0 <= si < scopes.len() && scope_has_prefix(c, #[trigger] scopes[si], keys)
}

/// How a key combination resolved.
#[derive(Debug, Clone, PartialEq)]
pub enum KeyResolution {
    /// An exact binding fired; the combination is consumed.
    Matched(Action),
    /// The combination is a prefix of some binding; wait for more keys.
    Pending,
    /// No binding starts with the combination; the combination is dropped.
    NoBinding,
}

/// Resolve a combination against the scope cascade: the first scope in the
/// list with an exact non-no-op binding wins; otherwise the combination
/// stays pending exactly while some scope binds an extension of it.
pub fn resolve_keys(config: &Config, scopes: &Vec<MappingScope>, keys: &String) -> (r:
    KeyResolution)
    requires
        config.wf(),
    ensures
        match r {
            KeyResolution::Matched(a) => first_exact(config@, scopes@, keys@) == Some(a@),
            KeyResolution::Pending => first_exact(config@, scopes@, keys@) is None && any_prefix(
                config@,
                scopes@,
                keys@,
            ),
            KeyResolution::NoBinding => first_exact(config@, scopes@, keys@) is None && !any_prefix(
                config@,
                scopes@,
                keys@,
            ),
        },
{
    let mut potential = false;
    let mut si: usize = 0;
    assert(scopes@.skip(0) =~= scopes@);
    while si < scopes.len()
        invariant
            si <= scopes@.len(),
            config.wf(),
            first_exact(config@, scopes@.skip(si as int), keys@) == first_exact(
                config@,
                scopes@,
                keys@,
            ),
            potential ==> any_prefix(config@, scopes@, keys@),
            !potential ==> forall|sj: int|
                0 <= sj < si ==> !scope_has_prefix(config@, #[trigger] scopes@[sj], keys@),
        decreases scopes@.len() - si,
    {
        let scope = scopes[si];
        let entries = config.get_bindings(scope);
        let mut e: usize = 0;
        while e < entries.len()
            invariant
                e <= entries@.len(),
                config.wf(),
                si < scopes@.len(),
                scope == scopes@[si as int],
                forall|p: int, q: int|
                    0 <= p < q < entries@.len() ==> entries@[p].0@ != entries@[q].0@,
                forall|p: int|
                    0 <= p < entries@.len() ==> merged_lookup(
                        config@.default_bindings,
                        config@.user_bindings,
                        scope,
                        #[trigger] entries@[p].0@,
                    ) == Some(entries@[p].1@),
                forall|k: Seq<char>|
                    #[trigger] merged_lookup(
                        config@.default_bindings,
                        config@.user_bindings,
                        scope,
                        k,
                    ) is Some ==> exists|p: int| 0 <= p < entries@.len() && entries@[p].0@ == k,
                forall|p: int|
                    0 <= p < e ==> !(#[trigger] entries@[p].0@ == keys@ && entries@[p].1@
                        != ActionV::Nop),
                potential ==> any_prefix(config@, scopes@, keys@),
                first_exact(config@, scopes@.skip(si as int), keys@) == first_exact(
                    config@,
                    scopes@,
                    keys@,
                ),
                !potential ==> forall|sj: int|
                    0 <= sj < si ==> !scope_has_prefix(config@, #[trigger] scopes@[sj], keys@),
                !potential ==> forall|p: int|
                    0 <= p < e ==> !((#[trigger] entries@[p].1@) != ActionV::Nop && starts_with(
                        entries@[p].0@,
                        keys@,
                    )),
            decreases entries@.len() - e,
        {
            let entry = &entries[e];
            if matches!(entry.1, Action::Nop) {
                assert(entry.1@ == ActionV::Nop);
                e += 1;
                continue ;
            }
            assert(entry.1@ != ActionV::Nop);
            if entry.0 == *keys {
                proof {
                    assert(exact_at(config@, scope, keys@) == Some(entry.1@));
                    assert(first_exact(config@, scopes@.skip(si as int), keys@) == Some(
                        entry.1@,
                    )) by {
                        assert(scopes@.skip(si as int)[0] == scope);
                    }
                }
                return KeyResolution::Matched(entry.1.duplicate());
            }
            let entry_chars = str_to_chars(entry.0.as_str());
            if starts_with_at(&entry_chars, keys.as_str(), 0) {
                proof {
                    let k = entry.0@;
                    assert(match merged_lookup(
                        config@.default_bindings,
                        config@.user_bindings,
                        scope,
                        k,
                    ) {
                        Some(a) => a != ActionV::Nop && starts_with(k, keys@),
                        None => false,
                    });
                    assert(scope_has_prefix(config@, scopes@[si as int], keys@));
                }
                potential = true;
            }
            e += 1;
        }
        proof {
            assert(exact_at(config@, scope, keys@) is None) by {
                if merged_lookup(
                    config@.default_bindings,
                    config@.user_bindings,
                    scope,
                    keys@,
                ) is Some {
                    let p = choose|p: int|
                        0 <= p < entries@.len() && entries@[p].0@ == keys@;
                }
            }
            if !potential {
                assert(!scope_has_prefix(config@, scopes@[si as int], keys@)) by {
                    if scope_has_prefix(config@, scope, keys@) {
                        let k = choose|k: Seq<char>|
                            match #[trigger] merged_lookup(
                                config@.default_bindings,
                                config@.user_bindings,
                                scope,
                                k,
                            ) {
                                Some(a) => a != ActionV::Nop && starts_with(k, keys@),
                                None => false,
                            };
                        let p = choose|p: int|
                            0 <= p < entries@.len() && entries@[p].0@ == k;
                    }
                }
            }
            assert(scopes@.skip(si as int)[0] == scope);
            assert(scopes@.skip(si as int).skip(1) =~= scopes@.skip(si + 1));
        }
        si += 1;
    }
    proof {
        assert(scopes@.skip(scopes@.len() as int).len() == 0);
        assert(first_exact(config@, scopes@, keys@) is None);
    }
    if potential {
        KeyResolution::Pending
    } else {
        assert forall|si2: int|
            0 <= si2 < scopes@.len() implies !scope_has_prefix(
            config@,
            #[trigger] scopes@[si2],
            keys@,
        ) by {}
        KeyResolution::NoBinding
    }
}

/// A mouse binding resolves by exact match only: the first scope whose
/// effective bindings hold the token decides, a no-op binding included.
pub open spec fn first_exact_raw(c: ConfigV, scopes: Seq<MappingScope>, keys: Seq<char>) -> Option<
    ActionV,
>
    decreases scopes.len(),
{
    if scopes.len() == 0 {
        None
    } else {
        match merged_lookup(c.default_bindings, c.user_bindings, scopes[0], keys) {
            Some(a) => Some(a),
            None => first_exact_raw(c, scopes.skip(1), keys),
        }
    }
}

/// Resolve a mouse token by exact match through the scope cascade.
pub fn resolve_exact(config: &Config, scopes: &Vec<MappingScope>, keys: &String) -> (r: Option<
    Action,
>)
    requires
        config.wf(),
    ensures
        match r {
            Some(a) => first_exact_raw(config@, scopes@, keys@) == Some(a@),
            None => first_exact_raw(config@, scopes@, keys@) is None,
        },
{
    let mut si: usize = 0;
    assert(scopes@.skip(0) =~= scopes@);
    while si < scopes.len()
        invariant
            si <= scopes@.len(),
            config.wf(),
            first_exact_raw(config@, scopes@.skip(si as int), keys@) == first_exact_raw(
                config@,
                scopes@,
                keys@,
            ),
        decreases scopes@.len() - si,
    {
        let scope = scopes[si];
        let entries = config.get_bindings(scope);
        let mut e: usize = 0;
        while e < entries.len()
            invariant
                e <= entries@.len(),
                config.wf(),
                si < scopes@.len(),
                scope == scopes@[si as int],
                forall|p: int|
                    0 <= p < entries@.len() ==> merged_lookup(
                        config@.default_bindings,
                        config@.user_bindings,
                        scope,
                        #[trigger] entries@[p].0@,
                    ) == Some(entries@[p].1@),
                forall|k: Seq<char>|
                    #[trigger] merged_lookup(
                        config@.default_bindings,
                        config@.user_bindings,
                        scope,
                        k,
                    ) is Some ==> exists|p: int| 0 <= p < entries@.len() && entries@[p].0@ == k,
                forall|p: int| 0 <= p < e ==> (#[trigger] entries@[p].0@) != keys@,
                first_exact_raw(config@, scopes@.skip(si as int), keys@) == first_exact_raw(
                    config@,
                    scopes@,
                    keys@,
                ),
            decreases entries@.len() - e,
        {
            let entry = &entries[e];
            if entry.0 == *keys {
                proof {
                    assert(scopes@.skip(si as int)[0] == scope);
                }
                return Some(entry.1.duplicate());
            }
            e += 1;
        }
        proof {
            assert(merged_lookup(
                config@.default_bindings,
                config@.user_bindings,
                scope,
                keys@,
            ) is None) by {
                if merged_lookup(
                    config@.default_bindings,
                    config@.user_bindings,
                    scope,
                    keys@,
                ) is Some {
                    let p = choose|p: int|
                        0 <= p < entries@.len() && entries@[p].0@ == keys@;
                }
            }
            assert(scopes@.skip(si as int)[0] == scope);
            assert(scopes@.skip(si as int).skip(1) =~= scopes@.skip(si + 1));
        }
        si += 1;
    }
    proof {
        assert(scopes@.skip(scopes@.len() as int).len() == 0);
    }
    None
}

/// The scope precedence law: when every scope before `si` in the cascade
/// leaves the combination unbound and scope `si` binds it, the cascade
/// resolves to scope `si`'s action: a more specific scope always wins over
/// a more general one, the global scope last.
pub proof fn lemma_scope_precedence(
    c: ConfigV,
    scopes: Seq<MappingScope>,
    keys: Seq<char>,
    si: int,
)
    requires
        0 <= si < scopes.len(),
        forall|sj: int| 0 <= sj < si ==> exact_at(c, #[trigger] scopes[sj], keys) is None,
        exact_at(c, scopes[si], keys) is Some,
    ensures
        first_exact(c, scopes, keys) == exact_at(c, scopes[si], keys),
    decreases si,
{
    if si == 0 {
    } else {
        assert(scopes.skip(1)[si - 1] == scopes[si]);
        assert forall|sj: int|
            0 <= sj < si - 1 implies exact_at(c, #[trigger] scopes.skip(1)[sj], keys) is None by {
            assert(scopes.skip(1)[sj] == scopes[sj + 1]);
        }
        lemma_scope_precedence(c, scopes.skip(1), keys, si - 1);
    }
}

} // verus!
