use vstd::prelude::*;
use crate::digits::{dec_seq, pad2, pad2_str, pad4, pad4_str, u64_dec};
use crate::timestamp::Timestamp;

verus! {

/// One line of the metrics text: the stored row count of one entity
/// type, in the exporter's label shape.
pub open spec fn metric_line(name: Seq<char>, count: nat) -> Seq<char> {
    "items_cached_total{resource_type=\""@ + name + "\"} "@ + dec_seq(count) + "\n"@
}

/// Renders one metrics line for an entity type and its stored row count.
pub fn format_metric_line(name: &str, count: u64) -> (r: String)
    ensures
        r@ == metric_line(name@, count as nat),
{
    let mut s = "items_cached_total{resource_type=\"".to_owned();
    s.append(name);
    s.append("\"} ");
    s.append(u64_dec(count).as_str());
    s.append("\n");
    proof {
        assert(s@ =~= metric_line(name@, count as nat));
    }
    s
}

/// The name of a backup file taken at `t`: the instant with dashes for
/// the time separators, between the fixed stem and suffix.
pub open spec fn backup_name(t: Timestamp) -> Seq<char> {
    "folketinget_"@ + pad4(t.year as int) + seq!['-'] + pad2(t.month as int) + seq!['-'] + pad2(
        t.day as int,
    ) + seq!['T'] + pad2(t.hour as int) + seq!['-'] + pad2(t.minute as int) + seq!['-'] + pad2(
        t.second as int,
    ) + ".sqlite3"@
}

/// Renders the backup file name for a snapshot taken at `t`.
pub fn backup_file_name(t: &Timestamp) -> (r: String)
    requires
        t.wf(),
    ensures
        r@ == backup_name(*t),
{
    let mut s = "folketinget_".to_owned();
    s.append(pad4_str(t.year).as_str());
    s.append("-");
    s.append(pad2_str(t.month).as_str());
    s.append("-");
    s.append(pad2_str(t.day).as_str());
    s.append("T");
    s.append(pad2_str(t.hour).as_str());
    s.append("-");
    s.append(pad2_str(t.minute).as_str());
    s.append("-");
    s.append(pad2_str(t.second).as_str());
    s.append(".sqlite3");
    proof {
        reveal_strlit("-");
        reveal_strlit("T");
        assert("-"@ =~= seq!['-']);
        assert("T"@ =~= seq!['T']);
        assert(s@ =~= backup_name(*t));
    }
    s
}

} // verus!
