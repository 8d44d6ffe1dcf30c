//! The channel adapters this supervisor knows, and when each counts as configured.
use vstd::prelude::*;

use crate::text::{is_blank, is_blank_str, str_eq};

verus! {

/// One channel adapter: its display name, the environment variables that must
/// all hold a value for it to be configured, and the flag that both launches
/// its process and marks that process in the process table.
#[derive(Clone, Copy, Debug)]
pub struct ChannelAdapterSpec {
    pub label: &'static str,
    pub env_keys: &'static [&'static str],
    pub adapter_flag: &'static str,
}

/// What a `ChannelAdapterSpec` holds, as character sequences.
pub struct AdapterView {
    pub label: Seq<char>,
    pub env_keys: Seq<Seq<char>>,
    pub flag: Seq<char>,
}

impl View for ChannelAdapterSpec {
    type V = AdapterView;

    open spec fn view(&self) -> AdapterView {
        AdapterView {
            label: self.label@,
            env_keys: self.env_keys@.map_values(|k: &str| k@),
            flag: self.adapter_flag@,
        }
    }
}

/// The supported channels, in the order they are considered.
pub open spec fn registry() -> Seq<AdapterView> {
    seq![
        AdapterView { label: "ntfy"@, env_keys: seq!["NTFY_TOPIC"@], flag: "--ntfy"@ },
        AdapterView { label: "Discord"@, env_keys: seq!["DISCORD_BOT_TOKEN"@], flag: "--discord"@ },
        AdapterView {
            label: "Slack"@,
            env_keys: seq!["SLACK_APP_TOKEN"@, "SLACK_BOT_TOKEN"@],
            flag: "--slack"@,
        },
    ]
}

/// The views of a sequence of adapter specs.
pub open spec fn spec_views(v: Seq<ChannelAdapterSpec>) -> Seq<AdapterView> {
    v.map_values(|a: ChannelAdapterSpec| a@)
}

/// The supported channels.
pub fn channel_adapter_specs() -> (r: Vec<ChannelAdapterSpec>)
    ensures
        spec_views(r@) == registry(),
{
    let r = vec![
        ChannelAdapterSpec { label: "ntfy", env_keys: &["NTFY_TOPIC"], adapter_flag: "--ntfy" },
        ChannelAdapterSpec {
            label: "Discord",
            env_keys: &["DISCORD_BOT_TOKEN"],
            adapter_flag: "--discord",
        },
        ChannelAdapterSpec {
            label: "Slack",
            env_keys: &["SLACK_APP_TOKEN", "SLACK_BOT_TOKEN"],
            adapter_flag: "--slack",
        },
    ];
    assert(r@[0].env_keys@.map_values(|k: &str| k@) =~= seq!["NTFY_TOPIC"@]);
    assert(r@[1].env_keys@.map_values(|k: &str| k@) =~= seq!["DISCORD_BOT_TOKEN"@]);
    assert(r@[2].env_keys@.map_values(|k: &str| k@) =~= seq!["SLACK_APP_TOKEN"@, "SLACK_BOT_TOKEN"@]);
    assert(spec_views(r@) =~= registry());
    r
}


/// The character sequences of a list of strings.
pub open spec fn key_views(v: Seq<String>) -> Seq<Seq<char>> {
    v.map_values(|k: String| k@)
}

/// An adapter is configured when every one of its variables is among `present`.
pub open spec fn is_configured(a: AdapterView, present: Seq<Seq<char>>) -> bool {
    forall|i: int| 0 <= i < a.env_keys.len() ==> present.contains(a.env_keys[i])
}

/// Whether `key` is one of `present`.
pub(crate) fn has_key(present: &Vec<String>, key: &str) -> (r: bool)
    ensures
        r == key_views(present@).contains(key@),
{
    let mut i: usize = 0;
    while i < present.len()
        invariant
            i <= present@.len(),
            forall|j: int| 0 <= j < i ==> present@[j]@ != key@,
        decreases present@.len() - i,
    {
        if str_eq(present[i].as_str(), key) {
            assert(key_views(present@)[i as int] == key@);
            return true;
        }
        i = i + 1;
    }
    assert(!key_views(present@).contains(key@)) by {
        if key_views(present@).contains(key@) {
            let j = choose|j: int| 0 <= j < key_views(present@).len() && key_views(present@)[j] == key@;
            assert(present@[j]@ == key@);
        }
    }
    false
}

/// Whether every variable the adapter needs is among the names in `present`.
pub fn is_adapter_configured(spec: &ChannelAdapterSpec, present: &Vec<String>) -> (r: bool)
    ensures
        r == is_configured(spec@, key_views(present@)),
{
    let mut i: usize = 0;
    while i < spec.env_keys.len()
        invariant
            i <= spec.env_keys@.len(),
            forall|j: int| 0 <= j < i ==> key_views(present@).contains(spec@.env_keys[j]),
        decreases spec.env_keys@.len() - i,
    {
        assert(spec@.env_keys[i as int] == spec.env_keys@[i as int]@);
        if !has_key(present, spec.env_keys[i]) {
            return false;
        }
        i = i + 1;
    }
    true
}


/// Environment variables as (name, value) character sequences.
pub open spec fn var_views(vars: Seq<(String, String)>) -> Seq<(Seq<char>, Seq<char>)> {
    vars.map_values(|p: (String, String)| (p.0@, p.1@))
}

/// The names, in order, of the variables whose value is not blank.
pub open spec fn nonempty_keys(vars: Seq<(Seq<char>, Seq<char>)>) -> Seq<Seq<char>>
    decreases vars.len(),
{
    if vars.len() == 0 {
        seq![]
    } else {
        let r = nonempty_keys(vars.drop_last());
        if is_blank(vars.last().1) {
            r
        } else {
            r.push(vars.last().0)
        }
    }
}

/// The names of the environment variables in `vars` that hold a non-blank value.
pub fn present_nonempty_env_keys(vars: &Vec<(String, String)>) -> (r: Vec<String>)
    ensures
        key_views(r@) == nonempty_keys(var_views(vars@)),
{
    let mut out: Vec<String> = Vec::new();
    let mut i: usize = 0;
    while i < vars.len()
        invariant
            i <= vars@.len(),
            key_views(out@) == nonempty_keys(var_views(vars@).take(i as int)),
        decreases vars@.len() - i,
    {
        let ghost pre = var_views(vars@).take(i as int);
        let ghost done = key_views(out@);
        assert(var_views(vars@).take(i + 1).drop_last() =~= pre);
        assert(var_views(vars@).take(i + 1).last() == (vars@[i as int].0@, vars@[i as int].1@));
        if !is_blank_str(vars[i].1.as_str()) {
            out.push(vars[i].0.clone());
            assert(key_views(out@) =~= done.push(vars@[i as int].0@));
        }
        i = i + 1;
    }
    assert(var_views(vars@).take(vars@.len() as int) =~= var_views(vars@));
    out
}

/// Some variable named `k` holds a non-blank value in `vars`.
pub open spec fn has_value(vars: Seq<(Seq<char>, Seq<char>)>, k: Seq<char>) -> bool {
    exists|i: int| 0 <= i < vars.len() && vars[i].0 == k && !is_blank(vars[i].1)
}

/// A name is among `nonempty_keys(vars)` exactly when some variable of that
/// name holds a non-blank value.
pub proof fn lemma_nonempty_keys_contains(vars: Seq<(Seq<char>, Seq<char>)>, k: Seq<char>)
    ensures
        nonempty_keys(vars).contains(k) <==> has_value(vars, k),
    decreases vars.len(),
{
    if vars.len() > 0 {
        let pre = vars.drop_last();
        let r = nonempty_keys(pre);
        let last = vars.len() - 1;
        lemma_nonempty_keys_contains(pre, k);
        assert(forall|i: int| 0 <= i < pre.len() ==> pre[i] == vars[i]);
        if nonempty_keys(vars).contains(k) {
            let i = choose|i: int|
                0 <= i < nonempty_keys(vars).len() && nonempty_keys(vars)[i] == k;
            if i < r.len() {
                assert(r[i] == k);
                let w = choose|w: int| 0 <= w < pre.len() && pre[w].0 == k && !is_blank(pre[w].1);
                assert(vars[w] == pre[w]);
            } else {
                assert(vars[last].0 == k && !is_blank(vars[last].1));
            }
        }
        if has_value(vars, k) {
            let i = choose|i: int| 0 <= i < vars.len() && vars[i].0 == k && !is_blank(vars[i].1);
            if i < last {
                assert(pre[i] == vars[i]);
                assert(has_value(pre, k));
                let w = choose|w: int| 0 <= w < r.len() && r[w] == k;
                assert(nonempty_keys(vars)[w] == k);
            } else {
                assert(nonempty_keys(vars) == r.push(k));
                assert(nonempty_keys(vars)[r.len() as int] == k);
            }
        }
    }
}

/// An adapter is configured from the environment `vars` exactly when each of its
/// variables holds a non-blank value there.
pub proof fn lemma_configured_iff_values_present(a: AdapterView, vars: Seq<(Seq<char>, Seq<char>)>)
    ensures
        is_configured(a, nonempty_keys(vars)) <==> forall|j: int|
            0 <= j < a.env_keys.len() ==> has_value(vars, #[trigger] a.env_keys[j]),
{
    assert forall|j: int| 0 <= j < a.env_keys.len() implies (nonempty_keys(vars).contains(
        a.env_keys[j],
    ) <==> has_value(vars, a.env_keys[j])) by {
        lemma_nonempty_keys_contains(vars, a.env_keys[j]);
    }
}

proof fn lemma_push_contains(present: Seq<Seq<char>>, k: Seq<char>, x: Seq<char>)
    ensures
        present.push(k).contains(x) <==> (x == k || present.contains(x)),
{
    if present.push(k).contains(x) {
        let i = choose|i: int| 0 <= i < present.push(k).len() && present.push(k)[i] == x;
        if i < present.len() {
            assert(present[i] == x);
        }
    }
    if present.contains(x) {
        let i = choose|i: int| 0 <= i < present.len() && present[i] == x;
        assert(present.push(k)[i] == x);
    }
    if x == k {
        assert(present.push(k)[present.len() as int] == x);
    }
}

/// Making one more name present configures an adapter exactly when that name was
/// the only one it still lacked; it never unconfigures an adapter.
pub proof fn lemma_configured_add_key(a: AdapterView, present: Seq<Seq<char>>, k: Seq<char>)
    ensures
        is_configured(a, present.push(k)) <==> forall|j: int|
            0 <= j < a.env_keys.len() ==> a.env_keys[j] == k || present.contains(a.env_keys[j]),
        is_configured(a, present) ==> is_configured(a, present.push(k)),
{
    assert forall|j: int| 0 <= j < a.env_keys.len() implies (present.push(k).contains(
        #[trigger] a.env_keys[j],
    ) <==> (a.env_keys[j] == k || present.contains(a.env_keys[j]))) by {
        lemma_push_contains(present, k, a.env_keys[j]);
    }
}

} // verus!
