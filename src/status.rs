//! The connection status of each configured channel, as the status report shows it.
use vstd::prelude::*;

use crate::registry::{
    channel_adapter_specs, is_adapter_configured, is_configured, key_views, registry, spec_views,
    AdapterView, ChannelAdapterSpec,
};
use crate::snapshot::{
    line_matches, list_has_flag, process_line_matches_acomm_flag, process_list_has_acomm_flag,
};

verus! {

/// One row of the channel report: a configured channel and whether it is connected.
#[derive(Debug, Clone, Copy, PartialEq, Eq)]
pub struct ChannelStatus {
    pub label: &'static str,
    pub connected: bool,
}

/// The rows for `specs`: each configured channel, in order, connected when the
/// bridge runs and the listing holds its adapter process.
pub open spec fn channel_rows(
    specs: Seq<AdapterView>,
    present: Seq<Seq<char>>,
    list: Seq<char>,
    bridge_running: bool,
) -> Seq<(Seq<char>, bool)>
    decreases specs.len(),
{
    if specs.len() == 0 {
        seq![]
    } else {
        let r = channel_rows(specs.drop_last(), present, list, bridge_running);
        let a = specs.last();
        if is_configured(a, present) {
            r.push((a.label, bridge_running && list_has_flag(list, a.flag)))
        } else {
            r
        }
    }
}

/// The (label, connected) pairs of a list of rows.
pub open spec fn row_views(v: Seq<ChannelStatus>) -> Seq<(Seq<char>, bool)> {
    v.map_values(|s: ChannelStatus| (s.label@, s.connected))
}

/// Whether every variable the channel needs is among the names in `present`.
pub fn is_channel_configured(spec: &ChannelAdapterSpec, present: &Vec<String>) -> (r: bool)
    ensures
        r == is_configured(spec@, key_views(present@)),
{
    is_adapter_configured(spec, present)
}

/// Whether one listing line is the adapter process marked by `adapter_flag`.
pub fn process_line_matches_adapter(line: &str, adapter_flag: &str) -> (r: bool)
    ensures
        r == line_matches(line@, adapter_flag@),
{
    process_line_matches_acomm_flag(line, adapter_flag)
}

/// Whether the listing holds the adapter process marked by `adapter_flag`.
pub fn process_list_has_adapter(process_list: &str, adapter_flag: &str) -> (r: bool)
    ensures
        r == list_has_flag(process_list@, adapter_flag@),
{
    process_list_has_acomm_flag(process_list, adapter_flag)
}

/// The report rows: each configured channel, in registry order; unconfigured
/// channels are left out.
pub fn channel_statuses_from_inputs(
    present_env_keys: &Vec<String>,
    process_list: &str,
    bridge_running: bool,
) -> (r: Vec<ChannelStatus>)
    ensures
        row_views(r@) == channel_rows(
            registry(),
            key_views(present_env_keys@),
            process_list@,
            bridge_running,
        ),
{
    let specs = channel_adapter_specs();
    let ghost present = key_views(present_env_keys@);
    let mut out: Vec<ChannelStatus> = Vec::new();
    let mut i: usize = 0;
    while i < specs.len()
        invariant
            i <= specs@.len(),
            spec_views(specs@) == registry(),
            present == key_views(present_env_keys@),
            row_views(out@) == channel_rows(
                spec_views(specs@).take(i as int),
                present,
                process_list@,
                bridge_running,
            ),
        decreases specs@.len() - i,
    {
        let spec = specs[i];
        let ghost done = row_views(out@);
        assert(spec_views(specs@).take(i + 1).drop_last() =~= spec_views(specs@).take(i as int));
        assert(spec_views(specs@).take(i + 1).last() == spec@);
        if is_channel_configured(&spec, present_env_keys) {
            let connected = bridge_running && process_list_has_adapter(
                process_list,
                spec.adapter_flag,
            );
            out.push(ChannelStatus { label: spec.label, connected });
            assert(row_views(out@) =~= done.push((spec@.label, connected)));
        }
        i = i + 1;
    }
    assert(spec_views(specs@).take(specs@.len() as int) =~= registry());
    out
}

proof fn lemma_rows_empty_when_unconfigured(
    specs: Seq<AdapterView>,
    present: Seq<Seq<char>>,
    list: Seq<char>,
    bridge_running: bool,
)
    requires
        forall|j: int| 0 <= j < specs.len() ==> !is_configured(#[trigger] specs[j], present),
    ensures
        channel_rows(specs, present, list, bridge_running) == Seq::<(Seq<char>, bool)>::empty(),
    decreases specs.len(),
{
    if specs.len() > 0 {
        let pre = specs.drop_last();
        assert(forall|j: int| 0 <= j < pre.len() ==> pre[j] == specs[j]);
        assert(!is_configured(specs[specs.len() - 1], present));
        lemma_rows_empty_when_unconfigured(pre, present, list, bridge_running);
    }
}

/// With none of the channels' variables present, the report has no rows at all:
/// unconfigured channels are never shown as not connected.
pub proof fn lemma_no_credentials_no_rows(
    present: Seq<Seq<char>>,
    list: Seq<char>,
    bridge_running: bool,
)
    requires
        forall|j: int, k: int|
            0 <= j < registry().len() && 0 <= k < registry()[j].env_keys.len() ==> !present.contains(
                #[trigger] registry()[j].env_keys[k],
            ),
    ensures
        channel_rows(registry(), present, list, bridge_running) == Seq::<(Seq<char>, bool)>::empty(),
{
    assert forall|j: int| 0 <= j < registry().len() implies !is_configured(
        #[trigger] registry()[j],
        present,
    ) by {
        assert(!present.contains(registry()[j].env_keys[0]));
    }
    lemma_rows_empty_when_unconfigured(registry(), present, list, bridge_running);
}

} // verus!
