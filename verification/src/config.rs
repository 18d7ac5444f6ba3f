//! Layered key-binding and button configuration.
//!
//! Two layers hold bindings: a default layer seeded from built-in directives
//! and a user layer fed by the user's configuration file and by live `map`
//! directives. The effective bindings of a scope are the default layer
//! overlaid with the user layer, the user layer winning on a key collision.

use vstd::prelude::*;
use vstd::string::StringExecFns;

use crate::action::{key_of, params_of, parse_action_spec, Action, ActionV};
use crate::errors::{Error, ErrorV};
use crate::git::{
    parse_file_status_spec, parse_staged_status_spec, FileStatus, StagedStatus,
};
use crate::text::{
    char_is_whitespace, chars_eq_str, chars_to_string, find_first, first_idx, is_whitespace_char,
    lemma_first_idx, lemma_next_ws_bounds, next_non_ws, next_ws, parse_usize, parse_usize_spec,
    scan_to_non_ws, scan_to_ws, str_to_chars, subvec,
};

verus! {

/// The view or view sub-state a binding or button applies to.
#[derive(Debug, Clone, Copy, PartialEq, Eq, Hash)]
pub enum MappingScope {
    Global,
    Files(Option<FileStatus>),
    Status(Option<StagedStatus>, Option<FileStatus>),
    Pager,
    Log,
    Show,
    Reflog,
    Diff,
    Stash,
    Blame,
}

/// Equality of two scopes.
pub fn scope_eq(a: &MappingScope, b: &MappingScope) -> (r: bool)
    ensures
        r == (a == b),
{
    match (a, b) {
        (MappingScope::Global, MappingScope::Global) => true,
        (MappingScope::Pager, MappingScope::Pager) => true,
        (MappingScope::Log, MappingScope::Log) => true,
        (MappingScope::Show, MappingScope::Show) => true,
        (MappingScope::Reflog, MappingScope::Reflog) => true,
        (MappingScope::Diff, MappingScope::Diff) => true,
        (MappingScope::Stash, MappingScope::Stash) => true,
        (MappingScope::Blame, MappingScope::Blame) => true,
        (MappingScope::Files(x), MappingScope::Files(y)) => opt_file_status_eq(x, y),
        (MappingScope::Status(a1, a2), MappingScope::Status(b1, b2)) => opt_staged_status_eq(
            a1,
            b1,
        ) && opt_file_status_eq(a2, b2),
        _ => false,
    }
}

fn opt_file_status_eq(a: &Option<FileStatus>, b: &Option<FileStatus>) -> (r: bool)
    ensures
        r == (a == b),
{
    match (a, b) {
        (Option::None, Option::None) => true,
        (Option::Some(x), Option::Some(y)) => x == y,
        _ => false,
    }
}

fn opt_staged_status_eq(a: &Option<StagedStatus>, b: &Option<StagedStatus>) -> (r: bool)
    ensures
        r == (a == b),
{
    match (a, b) {
        (Option::None, Option::None) => true,
        (Option::Some(x), Option::Some(y)) => x == y,
        _ => false,
    }
}

/// The scope name grammar: a scope keyword, optionally qualified by
/// colon-separated status names (`files:modified`, `status:staged:new`).
pub open spec fn parse_scope_spec(s: Seq<char>) -> Option<MappingScope> {
    let i = first_idx(s, ':');
    let key = s.subrange(0, i);
    if key == "global"@ {
        Some(MappingScope::Global)
    } else if key == "pager"@ {
        Some(MappingScope::Pager)
    } else if key == "log"@ {
        Some(MappingScope::Log)
    } else if key == "show"@ {
        Some(MappingScope::Show)
    } else if key == "reflog"@ {
        Some(MappingScope::Reflog)
    } else if key == "stash"@ {
        Some(MappingScope::Stash)
    } else if key == "blame"@ {
        Some(MappingScope::Blame)
    } else if key == "diff"@ {
        Some(MappingScope::Diff)
    } else if key == "files"@ {
        if i == s.len() {
            Some(MappingScope::Files(None))
        } else {
            let rest = s.skip(i + 1);
            let seg = rest.subrange(0, first_idx(rest, ':'));
            match parse_file_status_spec(seg) {
                Some(f) => Some(MappingScope::Files(Some(f))),
                None => None,
            }
        }
    } else if key == "status"@ {
        if i == s.len() {
            Some(MappingScope::Status(None, None))
        } else {
            let rest = s.skip(i + 1);
            let j = first_idx(rest, ':');
            let seg = rest.subrange(0, j);
            match parse_staged_status_spec(seg) {
                None => None,
                Some(st) => if j == rest.len() {
                    Some(MappingScope::Status(Some(st), None))
                } else {
                    let rest2 = rest.skip(j + 1);
                    let seg2 = rest2.subrange(0, first_idx(rest2, ':'));
                    match parse_file_status_spec(seg2) {
                        Some(f) => Some(MappingScope::Status(Some(st), Some(f))),
                        None => None,
                    }
                },
            }
        }
    } else {
        None
    }
}

impl MappingScope {
    /// Parse a scope name of the configuration grammar.
    pub fn from_str(s: &str) -> (r: Result<MappingScope, Error>)
        ensures
            match r {
                Ok(m) => parse_scope_spec(s@) == Some(m),
                Err(e) => parse_scope_spec(s@) is None && e@ == ErrorV::ParseMappingScope(s@),
            },
    {
        let v = str_to_chars(s);
        proof {
            lemma_first_idx(v@, ':');
        }
        let i = find_first(&v, ':');
        let key = subvec(&v, 0, i);
        if chars_eq_str(&key, "global") {
            Ok(MappingScope::Global)
        } else if chars_eq_str(&key, "pager") {
            Ok(MappingScope::Pager)
        } else if chars_eq_str(&key, "log") {
            Ok(MappingScope::Log)
        } else if chars_eq_str(&key, "show") {
            Ok(MappingScope::Show)
        } else if chars_eq_str(&key, "reflog") {
            Ok(MappingScope::Reflog)
        } else if chars_eq_str(&key, "stash") {
            Ok(MappingScope::Stash)
        } else if chars_eq_str(&key, "blame") {
            Ok(MappingScope::Blame)
        } else if chars_eq_str(&key, "diff") {
            Ok(MappingScope::Diff)
        } else if chars_eq_str(&key, "files") {
            if i == v.len() {
                Ok(MappingScope::Files(None))
            } else {
                let rest = subvec(&v, i + 1, v.len());
                proof {
                    lemma_first_idx(rest@, ':');
                }
                let j = find_first(&rest, ':');
                let seg = subvec(&rest, 0, j);
                let seg_s = chars_to_string(&seg);
                match FileStatus::from_str(seg_s.as_str()) {
                    Ok(f) => Ok(MappingScope::Files(Some(f))),
                    Err(_) => Err(Error::ParseMappingScope(String::from_str(s))),
                }
            }
        } else if chars_eq_str(&key, "status") {
            if i == v.len() {
                Ok(MappingScope::Status(None, None))
            } else {
                let rest = subvec(&v, i + 1, v.len());
                proof {
                    lemma_first_idx(rest@, ':');
                }
                let j = find_first(&rest, ':');
                let seg = subvec(&rest, 0, j);
                let seg_s = chars_to_string(&seg);
                match StagedStatus::from_str(seg_s.as_str()) {
                    Err(_) => Err(Error::ParseMappingScope(String::from_str(s))),
                    Ok(st) => {
                        if j == rest.len() {
                            Ok(MappingScope::Status(Some(st), None))
                        } else {
                            let rest2 = subvec(&rest, j + 1, rest.len());
                            proof {
                                lemma_first_idx(rest2@, ':');
                            }
                            let k = find_first(&rest2, ':');
                            let seg2 = subvec(&rest2, 0, k);
                            let seg2_s = chars_to_string(&seg2);
                            match FileStatus::from_str(seg2_s.as_str()) {
                                Ok(f) => Ok(MappingScope::Status(Some(st), Some(f))),
                                Err(_) => Err(Error::ParseMappingScope(String::from_str(s))),
                            }
                        }
                    },
                }
            }
        } else {
            Err(Error::ParseMappingScope(String::from_str(s)))
        }
    }
}

/// One key binding: a scope, a key sequence and the bound action.
#[derive(Debug, Clone)]
pub struct Binding {
    pub scope: MappingScope,
    pub key: String,
    pub action: Action,
}

/// Mathematical model of a [`Binding`].
pub struct BindingV {
    pub scope: MappingScope,
    pub key: Seq<char>,
    pub action: ActionV,
}

impl View for Binding {
    type V = BindingV;

    open spec fn view(&self) -> BindingV {
        BindingV { scope: self.scope, key: self.key@, action: self.action@ }
    }
}

/// One button: a scope, a label and the action a click triggers.
#[derive(Debug, Clone)]
pub struct ButtonEntry {
    pub scope: MappingScope,
    pub label: String,
    pub action: Action,
}

/// Mathematical model of a [`ButtonEntry`].
pub struct ButtonV {
    pub scope: MappingScope,
    pub label: Seq<char>,
    pub action: ActionV,
}

impl View for ButtonEntry {
    type V = ButtonV;

    open spec fn view(&self) -> ButtonV {
        ButtonV { scope: self.scope, label: self.label@, action: self.action@ }
    }
}

/// Views of all bindings of a layer.
pub open spec fn binding_views(l: Seq<Binding>) -> Seq<BindingV> {
    l.map_values(|b: Binding| b@)
}

/// Views of all buttons of a layer.
pub open spec fn button_views(l: Seq<ButtonEntry>) -> Seq<ButtonV> {
    l.map_values(|b: ButtonEntry| b@)
}

/// A layer holds some binding for `(scope, key)`.
pub open spec fn has_binding(l: Seq<BindingV>, scope: MappingScope, key: Seq<char>) -> bool {
    exists|i: int| 0 <= i < l.len() && l[i].scope == scope && l[i].key == key
}

/// The action a layer binds to `(scope, key)`, or `None`.
pub open spec fn layer_lookup(l: Seq<BindingV>, scope: MappingScope, key: Seq<char>) -> Option<
    ActionV,
> {
    if has_binding(l, scope, key) {
        let i = choose|i: int| 0 <= i < l.len() && l[i].scope == scope && l[i].key == key;
        Some(l[i].action)
    } else {
        None
    }
}

/// No two bindings of the layer share a scope and key.
pub open spec fn layer_wf(l: Seq<BindingV>) -> bool {
    forall|i: int, j: int|
        0 <= i < j < l.len() ==> !(#[trigger] l[i].scope == #[trigger] l[j].scope && l[i].key
            == l[j].key)
}

/// Upserting a binding: any binding of the same scope and key leaves, the
/// new one is appended.
pub open spec fn layer_set_spec(
    l: Seq<BindingV>,
    scope: MappingScope,
    key: Seq<char>,
    action: ActionV,
) -> Seq<BindingV> {
    l.filter(|b: BindingV| !(b.scope == scope && b.key == key)).push(
        BindingV { scope, key, action },
    )
}

/// The effective action for `(scope, key)`: the user layer wins, the
/// default layer answers where the user layer is silent.
pub open spec fn merged_lookup(
    default_l: Seq<BindingV>,
    user_l: Seq<BindingV>,
    scope: MappingScope,
    key: Seq<char>,
) -> Option<ActionV> {
    if has_binding(user_l, scope, key) {
        layer_lookup(user_l, scope, key)
    } else {
        layer_lookup(default_l, scope, key)
    }
}

/// The buttons a layer holds for a scope, in layer order.
pub open spec fn buttons_for(l: Seq<ButtonV>, scope: MappingScope) -> Seq<ButtonV> {
    l.filter(|b: ButtonV| b.scope == scope)
}

/// Upserting a button: buttons of the same scope and label leave, the new
/// one is appended.
pub open spec fn button_set_spec(
    l: Seq<ButtonV>,
    scope: MappingScope,
    label: Seq<char>,
    action: ActionV,
) -> Seq<ButtonV> {
    l.filter(|b: ButtonV| !(b.scope == scope && b.label == label)).push(
        ButtonV { scope, label, action },
    )
}

/// The whole configuration: display and behaviour variables, and the two
/// layers each of bindings and of buttons.
#[derive(Debug)]
pub struct Config {
    pub scrolloff: usize,
    pub git_exe: String,
    pub smart_case: bool,
    pub scroll_step: usize,
    pub menu_bar: bool,
    pub clipboard_tool: String,
    pub use_default_mappings: bool,
    pub use_default_buttons: bool,
    pub user_bindings: Vec<Binding>,
    pub default_bindings: Vec<Binding>,
    pub user_buttons: Vec<ButtonEntry>,
    pub default_buttons: Vec<ButtonEntry>,
}

/// Mathematical model of a [`Config`].
#[verifier::ext_equal]
pub struct ConfigV {
    pub scrolloff: int,
    pub git_exe: Seq<char>,
    pub smart_case: bool,
    pub scroll_step: int,
    pub menu_bar: bool,
    pub clipboard_tool: Seq<char>,
    pub use_default_mappings: bool,
    pub use_default_buttons: bool,
    pub user_bindings: Seq<BindingV>,
    pub default_bindings: Seq<BindingV>,
    pub user_buttons: Seq<ButtonV>,
    pub default_buttons: Seq<ButtonV>,
}

impl View for Config {
    type V = ConfigV;

    open spec fn view(&self) -> ConfigV {
        ConfigV {
            scrolloff: self.scrolloff as int,
            git_exe: self.git_exe@,
            smart_case: self.smart_case,
            scroll_step: self.scroll_step as int,
            menu_bar: self.menu_bar,
            clipboard_tool: self.clipboard_tool@,
            use_default_mappings: self.use_default_mappings,
            use_default_buttons: self.use_default_buttons,
            user_bindings: binding_views(self.user_bindings@),
            default_bindings: binding_views(self.default_bindings@),
            user_buttons: button_views(self.user_buttons@),
            default_buttons: button_views(self.default_buttons@),
        }
    }
}

impl Config {
    /// The starting configuration: the built-in variable values and no
    /// bindings or buttons in either layer. Callers seed the default layer
    /// with `map`/`button` directives before reading the user's file.
    pub fn starting() -> (r: Config)
        ensures
            r@.scrolloff == 5,
            r@.git_exe == "git"@,
            r@.smart_case == true,
            r@.scroll_step == 2,
            r@.menu_bar == true,
            r@.clipboard_tool == "xsel"@,
            r@.use_default_mappings == true,
            r@.use_default_buttons == true,
            r@.user_bindings == Seq::<BindingV>::empty(),
            r@.default_bindings == Seq::<BindingV>::empty(),
            r@.user_buttons == Seq::<ButtonV>::empty(),
            r@.default_buttons == Seq::<ButtonV>::empty(),
    {
        let r = Config {
            scrolloff: 5,
            git_exe: String::from_str("git"),
            smart_case: true,
            scroll_step: 2,
            menu_bar: true,
            clipboard_tool: String::from_str("xsel"),
            use_default_mappings: true,
            use_default_buttons: true,
            user_bindings: Vec::new(),
            default_bindings: Vec::new(),
            user_buttons: Vec::new(),
            default_buttons: Vec::new(),
        };
        proof {
            assert(binding_views(r.user_bindings@) =~= Seq::<BindingV>::empty());
            assert(binding_views(r.default_bindings@) =~= Seq::<BindingV>::empty());
            assert(button_views(r.user_buttons@) =~= Seq::<ButtonV>::empty());
            assert(button_views(r.default_buttons@) =~= Seq::<ButtonV>::empty());
        }
        r
    }
}

impl Default for Config {
    /// Same as [`Config::starting`].
    fn default() -> (r: Config)
        ensures
            r@.scrolloff == 5,
            r@.git_exe == "git"@,
            r@.smart_case == true,
            r@.scroll_step == 2,
            r@.menu_bar == true,
            r@.clipboard_tool == "xsel"@,
            r@.use_default_mappings == true,
            r@.use_default_buttons == true,
            r@.user_bindings == Seq::<BindingV>::empty(),
            r@.default_bindings == Seq::<BindingV>::empty(),
            r@.user_buttons == Seq::<ButtonV>::empty(),
            r@.default_buttons == Seq::<ButtonV>::empty(),
    {
        Config::starting()
    }
}

/// A filtered binding layer stays well-formed.
proof fn lemma_layer_wf_filter(l: Seq<BindingV>, pred: spec_fn(BindingV) -> bool)
    requires
        layer_wf(l),
    ensures
        layer_wf(l.filter(pred)),
        forall|i: int|
            0 <= i < l.filter(pred).len() ==> l.contains(#[trigger] l.filter(pred)[i]),
    decreases l.len(),
{
    reveal(Seq::filter);
    broadcast use vstd::seq_lib::group_seq_properties;

    if l.len() > 0 {
        let dl = l.drop_last();
        assert(layer_wf(dl)) by {
            assert(forall|i: int| 0 <= i < dl.len() ==> dl[i] == l[i]);
        }
        lemma_layer_wf_filter(dl, pred);
        if pred(l.last()) {
            let f = l.filter(pred);
            assert(f == dl.filter(pred).push(l.last()));
            assert forall|i: int, j: int|
                0 <= i < j < f.len() implies !(#[trigger] f[i].scope == #[trigger] f[j].scope
                && f[i].key == f[j].key) by {
                if j == f.len() - 1 {
                    assert(dl.contains(f[i]));
                    let w = choose|w: int| 0 <= w < dl.len() && dl[w] == f[i];
                    assert(l[w] == f[i] && l[l.len() - 1] == f[j]);
                }
            }
            assert forall|i: int|
                0 <= i < f.len() implies l.contains(#[trigger] f[i]) by {
                if i < f.len() - 1 {
                    assert(dl.contains(f[i]));
                    let w = choose|w: int| 0 <= w < dl.len() && dl[w] == f[i];
                    assert(l[w] == f[i]);
                } else {
                    assert(l[l.len() - 1] == f[i]);
                }
            }
        } else {
            assert(l.filter(pred) == dl.filter(pred));
            assert forall|i: int|
                0 <= i < l.filter(pred).len() implies l.contains(
                #[trigger] l.filter(pred)[i]) by {
                assert(dl.contains(dl.filter(pred)[i]));
                let w = choose|w: int| 0 <= w < dl.len() && dl[w] == dl.filter(pred)[i];
                assert(l[w] == l.filter(pred)[i]);
            }
        }
    }
}

/// What upserting does to lookups: the upserted pair answers with the new
/// action, every other pair answers as before; well-formedness is kept.
pub proof fn lemma_layer_set(l: Seq<BindingV>, scope: MappingScope, key: Seq<char>, action: ActionV)
    requires
        layer_wf(l),
    ensures
        layer_wf(layer_set_spec(l, scope, key, action)),
        layer_lookup(layer_set_spec(l, scope, key, action), scope, key) == Some(action),
        forall|s2: MappingScope, k2: Seq<char>|
            !(s2 == scope && k2 == key) ==> #[trigger] layer_lookup(
                layer_set_spec(l, scope, key, action),
                s2,
                k2,
            ) == layer_lookup(l, s2, k2),
{
    broadcast use vstd::seq_lib::group_seq_properties;

    let pred = |b: BindingV| !(b.scope == scope && b.key == key);
    let f = l.filter(pred);
    let nb = BindingV { scope, key, action };
    let out = layer_set_spec(l, scope, key, action);
    lemma_layer_wf_filter(l, pred);
    assert forall|i: int| 0 <= i < f.len() implies pred(#[trigger] f[i]) by {
        l.lemma_filter_pred(pred, i);
    }
    // out is well-formed: the appended binding matches nothing that stays
    assert forall|i: int, j: int|
        0 <= i < j < out.len() implies !(#[trigger] out[i].scope == #[trigger] out[j].scope
        && out[i].key == out[j].key) by {
        if j == out.len() - 1 {
            assert(out[i] == f[i] && pred(f[i]));
        } else {
            assert(out[i] == f[i] && out[j] == f[j]);
        }
    }
    // the upserted pair answers with the new action
    assert(out[out.len() - 1] == nb);
    assert(has_binding(out, scope, key));
    let w = choose|i: int| 0 <= i < out.len() && out[i].scope == scope && out[i].key == key;
    assert(out[w].action == action) by {
        if w < out.len() - 1 {
            assert(pred(f[w]));
        }
    }
    // every other pair answers as before
    assert forall|s2: MappingScope, k2: Seq<char>|
        !(s2 == scope && k2 == key) implies #[trigger] layer_lookup(out, s2, k2)
        == layer_lookup(l, s2, k2) by {
        if has_binding(out, s2, k2) {
            let i = choose|i: int|
                0 <= i < out.len() && out[i].scope == s2 && out[i].key == k2;
            assert(i < f.len() && out[i] == f[i]);
            assert(l.contains(f[i]));
            let a = choose|a: int| 0 <= a < l.len() && l[a] == f[i];
            assert(has_binding(l, s2, k2));
            let b = choose|b: int| 0 <= b < l.len() && l[b].scope == s2 && l[b].key == k2;
            assert(a == b || !(l[a].scope == l[b].scope && l[a].key == l[b].key));
            assert(layer_lookup(out, s2, k2) == layer_lookup(l, s2, k2));
        } else {
            if has_binding(l, s2, k2) {
                let b = choose|b: int|
                    0 <= b < l.len() && l[b].scope == s2 && l[b].key == k2;
                assert(pred(l[b]));
                assert(f.contains(l[b])) by {
                    l.lemma_filter_contains(pred, b);
                }
                let i = choose|i: int| 0 <= i < f.len() && f[i] == l[b];
                assert(out[i] == l[b]);
                assert(has_binding(out, s2, k2));
            }
        }
    }
}

/// `splitn(3, ' ')` of a `map` directive body, when it yields three parts:
/// the scope text, the key, and the action text.
pub open spec fn map_parts(s: Seq<char>) -> Option<(Seq<char>, Seq<char>, Seq<char>)> {
    let i1 = first_idx(s, ' ');
    if i1 == s.len() {
        None
    } else {
        let rest = s.skip(i1 + 1);
        let i2 = first_idx(rest, ' ');
        if i2 == rest.len() {
            None
        } else {
            Some((s.subrange(0, i1), rest.subrange(0, i2), rest.skip(i2 + 1)))
        }
    }
}

/// What a `map` directive does to the configuration: upsert the binding in
/// the chosen layer, or fail on an unknown scope or action. A body of fewer
/// than three parts is ignored.
pub open spec fn parse_map_spec(c: ConfigV, params: Seq<char>, default: bool) -> Result<
    ConfigV,
    ErrorV,
> {
    match map_parts(params) {
        None => Ok(c),
        Some((m, k, a)) => match parse_scope_spec(m) {
            None => Err(ErrorV::ParseMappingScope(m)),
            Some(scope) => match parse_action_spec(a) {
                None => Err(ErrorV::ParseAction(a)),
                Some(act) => Ok(
                    if default {
                        ConfigV {
                            default_bindings: layer_set_spec(c.default_bindings, scope, k, act),
                            ..c
                        }
                    } else {
                        ConfigV { user_bindings: layer_set_spec(c.user_bindings, scope, k, act), ..c }
                    },
                ),
            },
        },
    }
}

/// What a `set` directive does to the configuration: update the named
/// variable, or fail on an unknown name or a missing value. A numeric
/// variable keeps its value when the new one does not parse.
pub open spec fn set_var_spec(c: ConfigV, params: Seq<char>) -> Result<ConfigV, ErrorV> {
    if first_idx(params, ' ') == params.len() {
        Err(ErrorV::ParseVariable(params))
    } else {
        let k = key_of(params);
        let v = params_of(params);
        if k == "scrolloff"@ {
            Ok(
                match parse_usize_spec(v) {
                    Some(n) => ConfigV { scrolloff: n, ..c },
                    None => c,
                },
            )
        } else if k == "git"@ {
            Ok(ConfigV { git_exe: v, ..c })
        } else if k == "smart_case"@ {
            Ok(ConfigV { smart_case: v == "true"@, ..c })
        } else if k == "scroll_step"@ {
            Ok(
                match parse_usize_spec(v) {
                    Some(n) => ConfigV { scroll_step: n, ..c },
                    None => c,
                },
            )
        } else if k == "menu_bar"@ {
            Ok(ConfigV { menu_bar: v == "true"@, ..c })
        } else if k == "clipboard"@ {
            Ok(ConfigV { clipboard_tool: v, ..c })
        } else if k == "default_mappings"@ {
            Ok(ConfigV { use_default_mappings: v == "true"@, ..c })
        } else if k == "default_buttons"@ {
            Ok(ConfigV { use_default_buttons: v == "true"@, ..c })
        } else {
            Err(ErrorV::ParseVariable(params))
        }
    }
}

impl Config {
    /// Apply a `map` directive body: `<scope> <key> <action-text>`.
    pub fn parse_map_line(&mut self, params: &str, default: bool) -> (r: Result<(), Error>)
        ensures
            match r {
                Ok(_) => parse_map_spec(old(self)@, params@, default) == Ok::<ConfigV, ErrorV>(
                    final(self)@,
                ),
                Err(e) => parse_map_spec(old(self)@, params@, default) == Err::<ConfigV, ErrorV>(
                    e@,
                ) && final(self)@ == old(self)@,
            },
    {
        let v = str_to_chars(params);
        proof {
            lemma_first_idx(v@, ' ');
        }
        let i1 = find_first(&v, ' ');
        if i1 == v.len() {
            assert(self@ =~= old(self)@);
            return Ok(());
        }
        let rest = subvec(&v, i1 + 1, v.len());
        proof {
            lemma_first_idx(rest@, ' ');
        }
        let i2 = find_first(&rest, ' ');
        if i2 == rest.len() {
            assert(self@ =~= old(self)@);
            return Ok(());
        }
        let mode_text = subvec(&v, 0, i1);
        let key = subvec(&rest, 0, i2);
        let action_text = subvec(&rest, i2 + 1, rest.len());
        let mode_s = chars_to_string(&mode_text);
        let scope = match MappingScope::from_str(mode_s.as_str()) {
            Ok(scope) => scope,
            Err(e) => {
                assert(self@ =~= old(self)@);
                return Err(e);
            },
        };
        let action_s = chars_to_string(&action_text);
        let action = match Action::from_str(action_s.as_str()) {
            Ok(action) => action,
            Err(e) => {
                assert(self@ =~= old(self)@);
                return Err(e);
            },
        };
        let key_s = chars_to_string(&key);
        if default {
            layer_set(&mut self.default_bindings, scope, key_s, action);
        } else {
            layer_set(&mut self.user_bindings, scope, key_s, action);
        }
        proof {
            let spec_r = parse_map_spec(old(self)@, params@, default);
            assert(spec_r is Ok && self@ =~= spec_r->Ok_0);
        }
        Ok(())
    }

    /// Apply a `set` directive body: `<variable> <value>`.
    pub fn parse_set_line(&mut self, params: &str) -> (r: Result<(), Error>)
        ensures
            match r {
                Ok(_) => set_var_spec(old(self)@, params@) == Ok::<ConfigV, ErrorV>(final(self)@),
                Err(e) => set_var_spec(old(self)@, params@) == Err::<ConfigV, ErrorV>(e@)
                    && final(self)@ == old(self)@,
            },
    {
        let v = str_to_chars(params);
        proof {
            lemma_first_idx(v@, ' ');
        }
        let i1 = find_first(&v, ' ');
        if i1 == v.len() {
            return Err(Error::ParseVariable(String::from_str(params)));
        }
        let key = subvec(&v, 0, i1);
        let value = subvec(&v, i1 + 1, v.len());
        assert(key@ == key_of(params@) && value@ == params_of(params@));
        if chars_eq_str(&key, "scrolloff") {
            if let Some(n) = parse_usize(&value) {
                self.scrolloff = n;
            }
            assert(self@ =~= set_var_spec(old(self)@, params@)->Ok_0);
        } else if chars_eq_str(&key, "git") {
            self.git_exe = chars_to_string(&value);
            assert(self@ =~= set_var_spec(old(self)@, params@)->Ok_0);
        } else if chars_eq_str(&key, "smart_case") {
            self.smart_case = chars_eq_str(&value, "true");
            assert(self@ =~= set_var_spec(old(self)@, params@)->Ok_0);
        } else if chars_eq_str(&key, "scroll_step") {
            if let Some(n) = parse_usize(&value) {
                self.scroll_step = n;
            }
            assert(self@ =~= set_var_spec(old(self)@, params@)->Ok_0);
        } else if chars_eq_str(&key, "menu_bar") {
            self.menu_bar = chars_eq_str(&value, "true");
            assert(self@ =~= set_var_spec(old(self)@, params@)->Ok_0);
        } else if chars_eq_str(&key, "clipboard") {
            self.clipboard_tool = chars_to_string(&value);
            assert(self@ =~= set_var_spec(old(self)@, params@)->Ok_0);
        } else if chars_eq_str(&key, "default_mappings") {
            self.use_default_mappings = chars_eq_str(&value, "true");
            assert(self@ =~= set_var_spec(old(self)@, params@)->Ok_0);
        } else if chars_eq_str(&key, "default_buttons") {
            self.use_default_buttons = chars_eq_str(&value, "true");
            assert(self@ =~= set_var_spec(old(self)@, params@)->Ok_0);
        } else {
            return Err(Error::ParseVariable(String::from_str(params)));
        }
        Ok(())
    }
}

/// The closing quote of a quoted second token starting at `t2s`, when the
/// button grammar accepts one: at least one character between the quotes,
/// and white space right after the closing quote.
pub open spec fn quote_end(s: Seq<char>, t2s: int) -> Option<int> {
    if 0 <= t2s < s.len() && s[t2s] == '"' {
        let q = t2s + 1 + first_idx(s.skip(t2s + 1), '"');
        if q < s.len() && q > t2s + 1 && q + 1 < s.len() && char_is_whitespace(s[q + 1]) {
            Some(q)
        } else {
            None
        }
    } else {
        None
    }
}

/// The button grammar: a scope token, a label token (a run of non-white-space,
/// or a quoted string), and the rest of the line as action text, separated by
/// white-space runs.
pub open spec fn button_parts(s: Seq<char>) -> Option<(Seq<char>, Seq<char>, Seq<char>)> {
    let t1e = next_ws(s, 0);
    if t1e == 0 || t1e == s.len() {
        None
    } else {
        let t2s = next_non_ws(s, t1e);
        if t2s == s.len() {
            None
        } else {
            match quote_end(s, t2s) {
                Some(q) => Some(
                    (s.subrange(0, t1e), s.subrange(t2s, q + 1), s.skip(next_non_ws(s, q + 1))),
                ),
                None => {
                    let t2e = next_ws(s, t2s);
                    if t2e == s.len() {
                        None
                    } else {
                        Some(
                            (
                                s.subrange(0, t1e),
                                s.subrange(t2s, t2e),
                                s.skip(next_non_ws(s, t2e)),
                            ),
                        )
                    }
                },
            }
        }
    }
}

/// A label of two or more characters loses surrounding double quotes.
pub open spec fn unquote(raw: Seq<char>) -> Seq<char> {
    if raw.len() >= 2 && raw[0] == '"' && raw[raw.len() - 1] == '"' {
        raw.subrange(1, raw.len() - 1)
    } else {
        raw
    }
}

/// What a `button` directive does to the configuration: upsert the button
/// in the chosen layer, or fail on a body that does not fit the grammar, an
/// unknown scope, or an unknown action.
pub open spec fn parse_button_spec(c: ConfigV, params: Seq<char>, default: bool) -> Result<
    ConfigV,
    ErrorV,
> {
    match button_parts(params) {
        None => Err(ErrorV::ParseButton(params)),
        Some((m, raw, a)) => match parse_scope_spec(m) {
            None => Err(ErrorV::ParseMappingScope(m)),
            Some(scope) => match parse_action_spec(a) {
                None => Err(ErrorV::ParseAction(a)),
                Some(act) => Ok(
                    if default {
                        ConfigV {
                            default_buttons: button_set_spec(
                                c.default_buttons,
                                scope,
                                unquote(raw),
                                act,
                            ),
                            ..c
                        }
                    } else {
                        ConfigV {
                            user_buttons: button_set_spec(c.user_buttons, scope, unquote(raw), act),
                            ..c
                        }
                    },
                ),
            },
        },
    }
}

/// What one configuration line does: dispatch on its first word; a line
/// with another first word is ignored.
pub open spec fn parse_line_spec(c: ConfigV, line: Seq<char>, default: bool) -> Result<
    ConfigV,
    ErrorV,
> {
    let kw = key_of(line);
    let params = params_of(line);
    if kw == "map"@ {
        parse_map_spec(c, params, default)
    } else if kw == "set"@ {
        set_var_spec(c, params)
    } else if kw == "button"@ {
        parse_button_spec(c, params, default)
    } else {
        Ok(c)
    }
}

impl Config {
    /// Apply a `button` directive body: `<scope> <label> <action-text>`,
    /// the label optionally quoted.
    pub fn parse_button_line(&mut self, params: &str, default: bool) -> (r: Result<(), Error>)
        ensures
            match r {
                Ok(_) => parse_button_spec(old(self)@, params@, default) == Ok::<ConfigV, ErrorV>(
                    final(self)@,
                ),
                Err(e) => parse_button_spec(old(self)@, params@, default) == Err::<ConfigV, ErrorV>(
                    e@,
                ) && final(self)@ == old(self)@,
            },
    {
        let v = str_to_chars(params);
        proof {
            lemma_next_ws_bounds(v@, 0);
        }
        let t1e = scan_to_ws(&v, 0);
        if t1e == 0 || t1e == v.len() {
            return Err(Error::ParseButton(String::from_str(params)));
        }
        proof {
            lemma_next_ws_bounds(v@, t1e as int);
        }
        let t2s = scan_to_non_ws(&v, t1e);
        if t2s == v.len() {
            return Err(Error::ParseButton(String::from_str(params)));
        }
        let mode_text = subvec(&v, 0, t1e);
        // try the quoted form of the label first, as the grammar does
        let mut raw_start: usize = t2s;
        let mut raw_end: usize = 0;
        let mut quoted = false;
        if v[t2s] == '"' {
            let tail = subvec(&v, t2s + 1, v.len());
            proof {
                lemma_first_idx(tail@, '"');
                assert(tail@ =~= v@.skip(t2s + 1));
            }
            let qrel = find_first(&tail, '"');
            let q = t2s + 1 + qrel;
            if q < v.len() && q > t2s + 1 && q + 1 < v.len() && is_whitespace_char(v[q + 1]) {
                quoted = true;
                raw_end = q + 1;
            }
        }
        if !quoted {
            assert(quote_end(v@, t2s as int) is None);
            proof {
                lemma_next_ws_bounds(v@, t2s as int);
            }
            let t2e = scan_to_ws(&v, t2s);
            if t2e == v.len() {
                return Err(Error::ParseButton(String::from_str(params)));
            }
            raw_end = t2e;
        }
        proof {
            lemma_next_ws_bounds(v@, raw_end as int);
        }
        let rest_start = scan_to_non_ws(&v, raw_end);
        let raw = subvec(&v, raw_start, raw_end);
        let action_text = subvec(&v, rest_start, v.len());
        assert(action_text@ =~= v@.skip(rest_start as int));
        let ghost parts = button_parts(params@);
        assert(parts == Some((mode_text@, raw@, action_text@)));
        // unquote the label
        let label = if raw.len() >= 2 && raw[0] == '"' && raw[raw.len() - 1] == '"' {
            subvec(&raw, 1, raw.len() - 1)
        } else {
            subvec(&raw, 0, raw.len())
        };
        assert(label@ =~= unquote(raw@));
        let mode_s = chars_to_string(&mode_text);
        let scope = match MappingScope::from_str(mode_s.as_str()) {
            Ok(scope) => scope,
            Err(e) => {
                assert(self@ =~= old(self)@);
                return Err(e);
            },
        };
        let action_s = chars_to_string(&action_text);
        let action = match Action::from_str(action_s.as_str()) {
            Ok(action) => action,
            Err(e) => {
                assert(self@ =~= old(self)@);
                return Err(e);
            },
        };
        let label_s = chars_to_string(&label);
        if default {
            button_set(&mut self.default_buttons, scope, label_s, action);
        } else {
            button_set(&mut self.user_buttons, scope, label_s, action);
        }
        proof {
            let spec_r = parse_button_spec(old(self)@, params@, default);
            assert(spec_r is Ok && self@ =~= spec_r->Ok_0);
        }
        Ok(())
    }

    /// Apply one configuration line: a `map`, `set` or `button` directive;
    /// any other line is ignored.
    pub fn parse_line(&mut self, line: &str, default: bool) -> (r: Result<(), Error>)
        ensures
            match r {
                Ok(_) => parse_line_spec(old(self)@, line@, default) == Ok::<ConfigV, ErrorV>(
                    final(self)@,
                ),
                Err(e) => parse_line_spec(old(self)@, line@, default) == Err::<ConfigV, ErrorV>(e@)
                    && final(self)@ == old(self)@,
            },
    {
        let v = str_to_chars(line);
        proof {
            lemma_first_idx(v@, ' ');
        }
        let sp = find_first(&v, ' ');
        let kw = subvec(&v, 0, sp);
        let params = if sp < v.len() {
            subvec(&v, sp + 1, v.len())
        } else {
            Vec::new()
        };
        assert(kw@ == key_of(line@) && params@ == params_of(line@));
        let params_s = chars_to_string(&params);
        if chars_eq_str(&kw, "map") {
            self.parse_map_line(params_s.as_str(), default)
        } else if chars_eq_str(&kw, "set") {
            self.parse_set_line(params_s.as_str())
        } else if chars_eq_str(&kw, "button") {
            self.parse_button_line(params_s.as_str(), default)
        } else {
            assert(self@ =~= old(self)@);
            Ok(())
        }
    }
}

/// Views of the pairs a binding or button query returns.
pub open spec fn pair_views(l: Seq<(String, Action)>) -> Seq<(Seq<char>, ActionV)> {
    l.map_values(|p: (String, Action)| (p.0@, p.1@))
}

/// The label and action of each button, in order.
pub open spec fn button_pairs(l: Seq<ButtonV>) -> Seq<(Seq<char>, ActionV)> {
    l.map_values(|b: ButtonV| (b.label, b.action))
}

/// The key and action of each binding, in order.
pub open spec fn binding_pairs(l: Seq<BindingV>) -> Seq<(Seq<char>, ActionV)> {
    l.map_values(|b: BindingV| (b.key, b.action))
}

impl Config {
    /// Both binding layers are free of duplicate `(scope, key)` pairs. All
    /// layer updates of this module keep it so.
    pub open spec fn wf(self) -> bool {
        layer_wf(self@.user_bindings) && layer_wf(self@.default_bindings)
    }

    /// The effective bindings of a scope: every `(key, action)` pair of the
    /// default layer overlaid with the user layer, the user layer winning on
    /// a key collision; each key appears once.
    /// The keys of returned pairs.
    pub open spec fn pair_keys(l: Seq<(Seq<char>, ActionV)>) -> Seq<Seq<char>> {
        l.map_values(|p: (Seq<char>, ActionV)| p.0)
    }

    /// The effective bindings of a scope: every `(key, action)` pair of the
    /// default layer overlaid with the user layer, the user layer winning on
    /// a key collision; each key appears once.
    pub fn get_bindings(&self, mapping_scope: MappingScope) -> (r: Vec<(String, Action)>)
        requires
            self.wf(),
        ensures
            forall|p: int, q: int| 0 <= p < q < r@.len() ==> r@[p].0@ != r@[q].0@,
            forall|p: int|
                0 <= p < r@.len() ==> merged_lookup(
                    self@.default_bindings,
                    self@.user_bindings,
                    mapping_scope,
                    #[trigger] r@[p].0@,
                ) == Some(r@[p].1@),
            forall|k: Seq<char>|
                #[trigger] merged_lookup(
                    self@.default_bindings,
                    self@.user_bindings,
                    mapping_scope,
                    k,
                ) is Some ==> exists|p: int| 0 <= p < r@.len() && r@[p].0@ == k,
    {
        let mut out = collect_defaults(&self.default_bindings, &self.user_bindings, mapping_scope);
        let ghost n1 = out@.len() as int;
        collect_user_only(&mut out, &self.default_bindings, &self.user_bindings, mapping_scope);
        proof {
            lemma_merge_shape(
                binding_views(self.default_bindings@),
                binding_views(self.user_bindings@),
                mapping_scope,
                out@,
                n1 as int,
            );
        }
        out
    }

    /// The buttons shown for a scope: the user layer's, then — when default
    /// buttons are enabled — the default layer's, each in layer order.
    pub fn get_buttons(&self, mapping_scope: MappingScope) -> (r: Vec<(String, Action)>)
        ensures
            pair_views(r@) == effective_buttons(self@, mapping_scope),
    {
        let mut out: Vec<(String, Action)> = Vec::new();
        append_scope_buttons(&mut out, &self.user_buttons, mapping_scope);
        assert(pair_views(out@) =~= button_pairs(buttons_for(self@.user_buttons, mapping_scope)));
        if self.use_default_buttons {
            append_scope_buttons(&mut out, &self.default_buttons, mapping_scope);
        }
        out
    }
}

/// The button pairs one scope shows: the user layer's buttons, then —
/// when default buttons are enabled — the default layer's.
pub open spec fn effective_buttons(c: ConfigV, scope: MappingScope) -> Seq<(Seq<char>, ActionV)> {
    button_pairs(buttons_for(c.user_buttons, scope)) + (if c.use_default_buttons {
        button_pairs(buttons_for(c.default_buttons, scope))
    } else {
        Seq::<(Seq<char>, ActionV)>::empty()
    })
}

/// The button bar a scope list yields: each scope's buttons from the most
/// general scope (the list's last) to the most specific (its first).
pub open spec fn button_bar(c: ConfigV, scopes: Seq<MappingScope>, si: int) -> Seq<
    (Seq<char>, ActionV),
>
    decreases scopes.len() - si,
{
    if si < 0 || si >= scopes.len() {
        Seq::empty()
    } else {
        button_bar(c, scopes, si + 1) + effective_buttons(c, scopes[si])
    }
}

/// Collect the button bar for the active scope cascade, or nothing while
/// the menu bar is switched off.
pub fn collect_buttons(config: &Config, scopes: &Vec<MappingScope>) -> (r: Vec<(String, Action)>)
    ensures
        pair_views(r@) == (if config.menu_bar {
            button_bar(config@, scopes@, 0)
        } else {
            Seq::<(Seq<char>, ActionV)>::empty()
        }),
{
    let mut out: Vec<(String, Action)> = Vec::new();
    if !config.menu_bar {
        assert(pair_views(out@) =~= Seq::<(Seq<char>, ActionV)>::empty());
        return out;
    }
    let mut i: usize = scopes.len();
    assert(pair_views(out@) =~= button_bar(config@, scopes@, scopes@.len() as int));
    while i > 0
        invariant
            i <= scopes@.len(),
            pair_views(out@) == button_bar(config@, scopes@, i as int),
        decreases i,
    {
        i -= 1;
        let mut chunk = config.get_buttons(scopes[i]);
        let ghost out0 = pair_views(out@);
        let ghost cv = pair_views(chunk@);
        out.append(&mut chunk);
        assert(pair_views(out@) =~= out0 + cv);
    }
    out
}

/// Append the pairs of a button layer's buttons for one scope.
fn append_scope_buttons(
    out: &mut Vec<(String, Action)>,
    layer: &Vec<ButtonEntry>,
    scope: MappingScope,
)
    ensures
        pair_views(final(out)@) == pair_views(old(out)@) + button_pairs(
            buttons_for(button_views(layer@), scope),
        ),
{
    let ghost base = pair_views(out@);
    let ghost pred = |b: ButtonV| b.scope == scope;
    let mut i: usize = 0;
    proof {
        reveal(Seq::filter);
    }
    assert(pair_views(out@) =~= base + button_pairs(button_views(layer@).take(0).filter(pred)));
    while i < layer.len()
        invariant
            i <= layer@.len(),
            base == pair_views(old(out)@),
            pred == (|b: ButtonV| b.scope == scope),
            pair_views(out@) == base + button_pairs(
                button_views(layer@).take(i as int).filter(pred),
            ),
        decreases layer.len() - i,
    {
        proof {
            reveal(Seq::filter);
        }
        let ghost pre = button_views(layer@).take(i as int);
        let ghost post = button_views(layer@).take(i + 1);
        assert(post.drop_last() =~= pre && post.last() == layer@[i as int]@);
        assert(post.drop_last() == pre);
        let b = &layer[i];
        let ghost out0 = out@;
        if scope_eq(&b.scope, &scope) {
            assert(pred(post.last()));
            assert(post.filter(pred) == pre.filter(pred).push(post.last()));
            out.push((b.label.clone(), b.action.duplicate()));
            assert(pair_views(out@) =~= pair_views(out0).push(
                (post.last().label, post.last().action),
            ));
            assert(button_pairs(pre.filter(pred).push(post.last())) =~= button_pairs(
                pre.filter(pred),
            ).push((post.last().label, post.last().action)));
            assert(pair_views(out@) =~= base + button_pairs(post.filter(pred)));
        } else {
            assert(!pred(post.last()));
            assert(post.filter(pred) == pre.filter(pred));
            assert(pair_views(out@) =~= base + button_pairs(post.filter(pred)));
        }
        i += 1;
    }
    assert(button_views(layer@).take(layer@.len() as int) =~= button_views(layer@));
}

/// The binding-merge law: for any scope and key bound in both layers, the
/// effective bindings hold the user layer's action; for a key bound only in
/// the default layer, the default action is returned unchanged.
pub proof fn lemma_binding_merge(
    default_l: Seq<BindingV>,
    user_l: Seq<BindingV>,
    scope: MappingScope,
    key: Seq<char>,
    a_user: ActionV,
    a_def: ActionV,
)
    requires
        layer_wf(default_l),
        layer_wf(user_l),
    ensures
        merged_lookup(
            layer_set_spec(default_l, scope, key, a_def),
            layer_set_spec(user_l, scope, key, a_user),
            scope,
            key,
        ) == Some(a_user),
        !has_binding(user_l, scope, key) ==> merged_lookup(
            layer_set_spec(default_l, scope, key, a_def),
            user_l,
            scope,
            key,
        ) == Some(a_def),
{
    lemma_layer_set(default_l, scope, key, a_def);
    lemma_layer_set(user_l, scope, key, a_user);
}

/// The test for bindings of one scope.
pub open spec fn in_scope(scope: MappingScope) -> spec_fn(BindingV) -> bool {
    |b: BindingV| b.scope == scope
}

/// The test for bindings of one scope whose key the default layer does not
/// bind for that scope.
pub open spec fn user_only(dv: Seq<BindingV>, scope: MappingScope) -> spec_fn(BindingV) -> bool {
    |b: BindingV| b.scope == scope && !has_binding(dv, scope, b.key)
}

/// The merged action for the default binding at index `i`: the user layer's
/// action for the same scope and key if it has one, else the default's own.
fn merged_value_at(
    default_bindings: &Vec<Binding>,
    user_bindings: &Vec<Binding>,
    scope: MappingScope,
    i: usize,
) -> (v: Action)
    requires
        layer_wf(binding_views(default_bindings@)),
        layer_wf(binding_views(user_bindings@)),
        i < default_bindings@.len(),
        binding_views(default_bindings@)[i as int].scope == scope,
    ensures
        merged_lookup(
            binding_views(default_bindings@),
            binding_views(user_bindings@),
            scope,
            binding_views(default_bindings@)[i as int].key,
        ) == Some(v@),
{
    let ghost dv = binding_views(default_bindings@);
    let ghost uv = binding_views(user_bindings@);
    let b = &default_bindings[i];
    assert(dv[i as int] == b@);
    match layer_find(user_bindings, &scope, &b.key) {
        Some(ui) => {
            proof {
                assert(uv[ui as int] == user_bindings@[ui as int]@);
                let c = choose|c: int|
                    0 <= c < uv.len() && uv[c].scope == scope && uv[c].key == b.key@;
                assert(c == ui) by {
                    if c < ui {
                        assert(!(uv[c].scope == uv[ui as int].scope && uv[c].key
                            == uv[ui as int].key));
                    } else if ui < c {
                        assert(!(uv[ui as int].scope == uv[c].scope && uv[ui as int].key
                            == uv[c].key));
                    }
                }
            }
            user_bindings[ui].action.duplicate()
        },
        None => {
            proof {
                assert(has_binding(dv, scope, b.key@));
                let c = choose|c: int|
                    0 <= c < dv.len() && dv[c].scope == scope && dv[c].key == b.key@;
                assert(c == i) by {
                    if c < i {
                        assert(!(dv[c].scope == dv[i as int].scope && dv[c].key
                            == dv[i as int].key));
                    } else if i < c {
                        assert(!(dv[i as int].scope == dv[c].scope && dv[i as int].key
                            == dv[c].key));
                    }
                }
            }
            b.action.duplicate()
        },
    }
}

/// One pair per default binding of the scope, each already overlaid with
/// the user layer.
fn collect_defaults(
    default_bindings: &Vec<Binding>,
    user_bindings: &Vec<Binding>,
    scope: MappingScope,
) -> (out: Vec<(String, Action)>)
    requires
        layer_wf(binding_views(default_bindings@)),
        layer_wf(binding_views(user_bindings@)),
    ensures
        Config::pair_keys(pair_views(out@)) == Config::pair_keys(
            binding_pairs(binding_views(default_bindings@).filter(in_scope(scope))),
        ),
        forall|p: int|
            0 <= p < out@.len() ==> merged_lookup(
                binding_views(default_bindings@),
                binding_views(user_bindings@),
                scope,
                #[trigger] out@[p].0@,
            ) == Some(out@[p].1@),
{
    let ghost dv = binding_views(default_bindings@);
    let ghost uv = binding_views(user_bindings@);
    let mut out: Vec<(String, Action)> = Vec::new();
    let mut i: usize = 0;
    proof {
        reveal(Seq::filter);
    }
    assert(Config::pair_keys(pair_views(out@)) =~= Config::pair_keys(
        binding_pairs(dv.take(0).filter(in_scope(scope))),
    ));
    while i < default_bindings.len()
        invariant
            i <= default_bindings@.len(),
            dv == binding_views(default_bindings@),
            uv == binding_views(user_bindings@),
            layer_wf(dv),
            layer_wf(uv),
            Config::pair_keys(pair_views(out@)) == Config::pair_keys(
                binding_pairs(dv.take(i as int).filter(in_scope(scope))),
            ),
            forall|p: int|
                0 <= p < out@.len() ==> merged_lookup(dv, uv, scope, #[trigger] out@[p].0@)
                    == Some(out@[p].1@),
        decreases default_bindings@.len() - i,
    {
        proof {
            reveal(Seq::filter);
        }
        let ghost pre = dv.take(i as int);
        let ghost post = dv.take(i + 1);
        assert(post.drop_last() =~= pre && post.last() == dv[i as int]);
        assert(post.drop_last() == pre);
        let b = &default_bindings[i];
        assert(dv[i as int] == b@);
        if scope_eq(&b.scope, &scope) {
            assert(in_scope(scope)(post.last()));
            assert(post.filter(in_scope(scope)) == pre.filter(in_scope(scope)).push(post.last()));
            let value = merged_value_at(default_bindings, user_bindings, scope, i);
            let ghost vv = value@;
            let ghost out0 = out@;
            out.push((b.key.clone(), value));
            proof {
                let n = out@.len() - 1;
                let fpre = pre.filter(in_scope(scope));
                let fpost = post.filter(in_scope(scope));
                assert(out@[n].0@ == b.key@ && out@[n].1@ == vv);
                assert(forall|p: int| 0 <= p < n ==> out@[p] == out0[p]);
                assert(Config::pair_keys(pair_views(out0)).len() == out0.len());
                assert(Config::pair_keys(binding_pairs(fpre)).len() == fpre.len());
                assert(fpost.len() == fpre.len() + 1);
                assert(Config::pair_keys(binding_pairs(fpost)).len() == fpost.len());
                assert(Config::pair_keys(pair_views(out@)).len() == out@.len());
                assert(out@.len() == fpost.len());
                assert forall|x: int|
                    0 <= x < out@.len() implies Config::pair_keys(pair_views(out@))[x]
                    == Config::pair_keys(binding_pairs(fpost))[x] by {
                    if x < n {
                        assert(out@[x] == out0[x]);
                        assert(Config::pair_keys(pair_views(out0))[x] == Config::pair_keys(
                            binding_pairs(fpre),
                        )[x]);
                        assert(fpost[x] == fpre[x]);
                    } else {
                        assert(fpost[x] == post.last());
                    }
                }
                assert(Config::pair_keys(pair_views(out@)) =~= Config::pair_keys(
                    binding_pairs(fpost),
                ));
            }
        } else {
            assert(!in_scope(scope)(post.last()));
            assert(post.filter(in_scope(scope)) == pre.filter(in_scope(scope)));
        }
        i += 1;
    }
    assert(dv.take(dv.len() as int) =~= dv);
    out
}

/// Append one pair per user binding of the scope whose key the default
/// layer does not bind.
fn collect_user_only(
    out: &mut Vec<(String, Action)>,
    default_bindings: &Vec<Binding>,
    user_bindings: &Vec<Binding>,
    scope: MappingScope,
)
    requires
        layer_wf(binding_views(default_bindings@)),
        layer_wf(binding_views(user_bindings@)),
    ensures
        final(out)@.len() >= old(out)@.len(),
        forall|p: int| 0 <= p < old(out)@.len() ==> final(out)@[p] == old(out)@[p],
        Config::pair_keys(pair_views(final(out)@)) == Config::pair_keys(pair_views(old(out)@))
            + Config::pair_keys(
            binding_pairs(
                binding_views(user_bindings@).filter(
                    user_only(binding_views(default_bindings@), scope),
                ),
            ),
        ),
        forall|p: int|
            old(out)@.len() <= p < final(out)@.len() ==> merged_lookup(
                binding_views(default_bindings@),
                binding_views(user_bindings@),
                scope,
                #[trigger] final(out)@[p].0@,
            ) == Some(final(out)@[p].1@),
{
    let ghost dv = binding_views(default_bindings@);
    let ghost uv = binding_views(user_bindings@);
    let ghost out1 = out@;
    let ghost pu = user_only(dv, scope);
    let mut j: usize = 0;
    proof {
        reveal(Seq::filter);
    }
    assert(Config::pair_keys(pair_views(out@)) =~= Config::pair_keys(pair_views(out1))
        + Config::pair_keys(binding_pairs(uv.take(0).filter(pu))));
    while j < user_bindings.len()
        invariant
            j <= user_bindings@.len(),
            dv == binding_views(default_bindings@),
            uv == binding_views(user_bindings@),
            pu == user_only(dv, scope),
            layer_wf(dv),
            layer_wf(uv),
            out1.len() <= out@.len(),
            forall|p: int| 0 <= p < out1.len() ==> out@[p] == out1[p],
            Config::pair_keys(pair_views(out@)) == Config::pair_keys(pair_views(out1))
                + Config::pair_keys(binding_pairs(uv.take(j as int).filter(pu))),
            forall|p: int|
                out1.len() <= p < out@.len() ==> merged_lookup(dv, uv, scope, #[trigger] out@[p].0@)
                    == Some(out@[p].1@),
        decreases user_bindings@.len() - j,
    {
        proof {
            reveal(Seq::filter);
        }
        let ghost pre = uv.take(j as int);
        let ghost post = uv.take(j + 1);
        assert(post.drop_last() =~= pre && post.last() == uv[j as int]);
        assert(post.drop_last() == pre);
        let b = &user_bindings[j];
        assert(uv[j as int] == b@);
        let mut push_it = false;
        if scope_eq(&b.scope, &scope) {
            match layer_find(default_bindings, &scope, &b.key) {
                Some(_) => {
                    assert(has_binding(dv, scope, b.key@));
                    assert(!pu(post.last()));
                },
                None => {
                    push_it = true;
                },
            }
        } else {
            assert(!pu(post.last()));
        }
        if push_it {
            assert(pu(post.last()));
            assert(post.filter(pu) == pre.filter(pu).push(post.last()));
            proof {
                assert(has_binding(uv, scope, b.key@));
                let c = choose|c: int|
                    0 <= c < uv.len() && uv[c].scope == scope && uv[c].key == b.key@;
                assert(c == j) by {
                    if c < j {
                        assert(!(uv[c].scope == uv[j as int].scope && uv[c].key
                            == uv[j as int].key));
                    } else if j < c {
                        assert(!(uv[j as int].scope == uv[c].scope && uv[j as int].key
                            == uv[c].key));
                    }
                }
                assert(merged_lookup(dv, uv, scope, b.key@) == Some(uv[j as int].action));
            }
            let ghost out0 = out@;
            out.push((b.key.clone(), b.action.duplicate()));
            proof {
                let n = out@.len() - 1;
                let fpre = pre.filter(pu);
                let fpost = post.filter(pu);
                let base = Config::pair_keys(pair_views(out1));
                assert(out@[n].0@ == b.key@ && out@[n].1@ == uv[j as int].action);
                assert(forall|p: int| 0 <= p < n ==> out@[p] == out0[p]);
                assert(Config::pair_keys(pair_views(out0)).len() == out0.len());
                assert(Config::pair_keys(binding_pairs(fpre)).len() == fpre.len());
                assert(fpost.len() == fpre.len() + 1);
                assert(Config::pair_keys(binding_pairs(fpost)).len() == fpost.len());
                assert(Config::pair_keys(pair_views(out@)).len() == out@.len());
                assert(out@.len() == base.len() + fpost.len());
                assert forall|x: int|
                    0 <= x < out@.len() implies Config::pair_keys(pair_views(out@))[x] == (base
                    + Config::pair_keys(binding_pairs(fpost)))[x] by {
                    if x < n {
                        assert(out@[x] == out0[x]);
                        assert(Config::pair_keys(pair_views(out0))[x] == (base
                            + Config::pair_keys(binding_pairs(fpre)))[x]);
                        if x >= base.len() {
                            assert(fpost[x - base.len()] == fpre[x - base.len()]);
                        }
                    } else {
                        assert(fpost[x - base.len()] == post.last());
                    }
                }
                assert(Config::pair_keys(pair_views(out@)) =~= base + Config::pair_keys(
                    binding_pairs(fpost),
                ));
            }
        } else {
            assert(post.filter(pu) == pre.filter(pu));
        }
        j += 1;
    }
    assert(uv.take(uv.len() as int) =~= uv);
}

/// An output whose keys are the default-scope keys followed by the
/// user-only keys, with merged values throughout, meets the contract of
/// [`Config::get_bindings`].
proof fn lemma_merge_shape(
    dv: Seq<BindingV>,
    uv: Seq<BindingV>,
    scope: MappingScope,
    outv: Seq<(String, Action)>,
    n1: int,
)
    requires
        layer_wf(dv),
        layer_wf(uv),
        Config::pair_keys(pair_views(outv)) == Config::pair_keys(
            binding_pairs(dv.filter(in_scope(scope))),
        ) + Config::pair_keys(binding_pairs(uv.filter(user_only(dv, scope)))),
        n1 == dv.filter(in_scope(scope)).len(),
        forall|p: int|
            0 <= p < outv.len() ==> merged_lookup(dv, uv, scope, #[trigger] outv[p].0@) == Some(
                outv[p].1@,
            ),
    ensures
        forall|p: int, q: int| 0 <= p < q < outv.len() ==> outv[p].0@ != outv[q].0@,
        forall|k: Seq<char>|
            #[trigger] merged_lookup(dv, uv, scope, k) is Some ==> exists|p: int|
                0 <= p < outv.len() && outv[p].0@ == k,
{
    broadcast use vstd::seq_lib::group_seq_properties;

    let pd = in_scope(scope);
    let pu = user_only(dv, scope);
    let filter_d = dv.filter(pd);
    let filter_u = uv.filter(pu);
    let keys = Config::pair_keys(pair_views(outv));
    lemma_layer_wf_filter(dv, pd);
    lemma_layer_wf_filter(uv, pu);
    assert(forall|p: int| 0 <= p < outv.len() ==> keys[p] == #[trigger] outv[p].0@);
    assert(keys.len() == filter_d.len() + filter_u.len());
    assert(forall|p: int|
        0 <= p < filter_d.len() ==> keys[p] == (#[trigger] filter_d[p]).key);
    assert(forall|p: int|
        0 <= p < filter_u.len() ==> keys[filter_d.len() + p] == (#[trigger] filter_u[p]).key);
    assert forall|p: int| 0 <= p < filter_d.len() implies pd(#[trigger] filter_d[p]) by {
        dv.lemma_filter_pred(pd, p);
    }
    assert forall|p: int| 0 <= p < filter_u.len() implies pu(#[trigger] filter_u[p]) by {
        uv.lemma_filter_pred(pu, p);
    }
    assert forall|p: int, q: int| 0 <= p < q < outv.len() implies outv[p].0@ != outv[q].0@ by {
        if q < filter_d.len() {
            assert(!(filter_d[p].scope == filter_d[q].scope && filter_d[p].key
                == filter_d[q].key));
        } else if p >= filter_d.len() {
            let pp = p - filter_d.len();
            let qq = q - filter_d.len();
            assert(!(filter_u[pp].scope == filter_u[qq].scope && filter_u[pp].key
                == filter_u[qq].key));
        } else {
            let qq = q - filter_d.len();
            assert(dv.contains(filter_d[p]));
            let w = choose|w: int| 0 <= w < dv.len() && dv[w] == filter_d[p];
            assert(has_binding(dv, scope, filter_d[p].key));
            assert(!has_binding(dv, scope, filter_u[qq].key));
        }
    }
    assert forall|k: Seq<char>|
        #[trigger] merged_lookup(dv, uv, scope, k) is Some implies exists|p: int|
        0 <= p < outv.len() && outv[p].0@ == k by {
        if has_binding(dv, scope, k) {
            let d = choose|d: int| 0 <= d < dv.len() && dv[d].scope == scope && dv[d].key == k;
            assert(pd(dv[d]));
            dv.lemma_filter_contains(pd, d);
            let w = choose|w: int| 0 <= w < filter_d.len() && filter_d[w] == dv[d];
            assert(outv[w].0@ == k);
        } else {
            assert(has_binding(uv, scope, k));
            let u = choose|u: int| 0 <= u < uv.len() && uv[u].scope == scope && uv[u].key == k;
            assert(pu(uv[u]));
            uv.lemma_filter_contains(pu, u);
            let w = choose|w: int| 0 <= w < filter_u.len() && filter_u[w] == uv[u];
            assert(outv[filter_d.len() + w].0@ == k);
        }
    }
}

/// The index of a binding of `(scope, key)` in a layer, if there is one.
fn layer_find(layer: &Vec<Binding>, scope: &MappingScope, key: &String) -> (r: Option<usize>)
    ensures
        match r {
            Some(i) => i < layer@.len() && layer@[i as int]@.scope == *scope && layer@[i as int]@.key
                == key@ && has_binding(binding_views(layer@), *scope, key@),
            None => !has_binding(binding_views(layer@), *scope, key@),
        },
{
    let mut i: usize = 0;
    while i < layer.len()
        invariant
            i <= layer@.len(),
            forall|j: int|
                0 <= j < i ==> !(#[trigger] binding_views(layer@)[j].scope == *scope
                    && binding_views(layer@)[j].key == key@),
        decreases layer.len() - i,
    {
        let b = &layer[i];
        if scope_eq(&b.scope, scope) && b.key == *key {
            assert(binding_views(layer@)[i as int] == layer@[i as int]@);
            return Some(i);
        }
        assert(binding_views(layer@)[i as int] == layer@[i as int]@);
        i += 1;
    }
    proof {
        false_binding(layer, scope, key);
    }
    None
}

proof fn false_binding(layer: &Vec<Binding>, scope: &MappingScope, key: &String)
    requires
        forall|j: int|
            0 <= j < layer@.len() ==> !(#[trigger] binding_views(layer@)[j].scope == *scope
                && binding_views(layer@)[j].key == key@),
    ensures
        !has_binding(binding_views(layer@), *scope, key@),
{
}

/// Replace any binding of `(scope, key)` in the layer and append the new one.
fn layer_set(layer: &mut Vec<Binding>, scope: MappingScope, key: String, action: Action)
    ensures
        binding_views(final(layer)@) == layer_set_spec(binding_views(old(layer)@), scope, key@, action@),
{
    let ghost pred = |b: BindingV| !(b.scope == scope && b.key == key@);
    let mut out: Vec<Binding> = Vec::new();
    let mut i: usize = 0;
    proof {
        reveal(Seq::filter);
    }
    assert(binding_views(out@) =~= binding_views(layer@).take(0).filter(pred));
    while i < layer.len()
        invariant
            i <= layer@.len(),
            pred == (|b: BindingV| !(b.scope == scope && b.key == key@)),
            binding_views(out@) == binding_views(layer@).take(i as int).filter(pred),
        decreases layer.len() - i,
    {
        proof {
            reveal(Seq::filter);
        }
        let ghost pre = binding_views(layer@).take(i as int);
        let ghost post = binding_views(layer@).take(i + 1);
        assert(post.drop_last() =~= pre && post.last() == layer@[i as int]@);
        assert(post.drop_last() == pre);
        let b = &layer[i];
        if !(scope_eq(&b.scope, &scope) && b.key == key) {
            let copy = Binding { scope: b.scope, key: b.key.clone(), action: b.action.duplicate() };
            assert(copy@ == layer@[i as int]@);
            out.push(copy);
            assert(binding_views(out@) =~= post.filter(pred));
        } else {
            assert(binding_views(out@) =~= post.filter(pred));
        }
        i += 1;
    }
    proof {
        reveal(Seq::filter);
    }
    assert(binding_views(layer@).take(layer@.len() as int) =~= binding_views(layer@));
    out.push(Binding { scope, key, action });
    assert(binding_views(out@) =~= layer_set_spec(binding_views(layer@), scope, key@, action@));
    *layer = out;
}

/// Replace any button of `(scope, label)` in the layer and append the new one.
fn button_set(layer: &mut Vec<ButtonEntry>, scope: MappingScope, label: String, action: Action)
    ensures
        button_views(final(layer)@) == button_set_spec(button_views(old(layer)@), scope, label@, action@),
{
    let ghost pred = |b: ButtonV| !(b.scope == scope && b.label == label@);
    let mut out: Vec<ButtonEntry> = Vec::new();
    let mut i: usize = 0;
    proof {
        reveal(Seq::filter);
    }
    assert(button_views(out@) =~= button_views(layer@).take(0).filter(pred));
    while i < layer.len()
        invariant
            i <= layer@.len(),
            pred == (|b: ButtonV| !(b.scope == scope && b.label == label@)),
            button_views(out@) == button_views(layer@).take(i as int).filter(pred),
        decreases layer.len() - i,
    {
        proof {
            reveal(Seq::filter);
        }
        let ghost pre = button_views(layer@).take(i as int);
        let ghost post = button_views(layer@).take(i + 1);
        assert(post.drop_last() =~= pre && post.last() == layer@[i as int]@);
        assert(post.drop_last() == pre);
        let b = &layer[i];
        if !(scope_eq(&b.scope, &scope) && b.label == label) {
            let copy = ButtonEntry {
                scope: b.scope,
                label: b.label.clone(),
                action: b.action.duplicate(),
            };
            assert(copy@ == layer@[i as int]@);
            out.push(copy);
            assert(button_views(out@) =~= post.filter(pred));
        } else {
            assert(button_views(out@) =~= post.filter(pred));
        }
        i += 1;
    }
    proof {
        reveal(Seq::filter);
    }
    assert(button_views(layer@).take(layer@.len() as int) =~= button_views(layer@));
    out.push(ButtonEntry { scope, label, action });
    assert(button_views(out@) =~= button_set_spec(button_views(layer@), scope, label@, action@));
    *layer = out;
}

} // verus!
