//! The transfer result record and its human-readable rendering, with byte
//! counts scaled to KB/MB/GB at two decimals (rounded half up).

use crate::strutil::{dec_digit, dec_rep, dec_string};
use vstd::prelude::*;

verus! {

pub const KB: u64 = 1024;

pub const MB: u64 = 1024 * 1024;

pub const GB: u64 = 1024 * 1024 * 1024;

/// A byte count scaled by a unit, as `<whole>.<two digits>`.
pub open spec fn spec_scaled(b: nat, unit: nat) -> Seq<char>
    recommends
        unit >= 2,
{
    let h = (b * 100 + unit / 2) / unit;
    dec_rep(h / 100) + seq!['.', dec_digit((h / 10) % 10), dec_digit(h % 10)]
}

/// A byte count in human units: plain bytes under 1 KB, else two decimals
/// of the largest unit reached.
pub open spec fn spec_format_bytes(b: u64) -> Seq<char> {
    if b >= GB {
        spec_scaled(b as nat, GB as nat) + " GB"@
    } else if b >= MB {
        spec_scaled(b as nat, MB as nat) + " MB"@
    } else if b >= KB {
        spec_scaled(b as nat, KB as nat) + " KB"@
    } else {
        dec_rep(b as nat) + " bytes"@
    }
}

fn scaled(b: u64, unit: u64) -> (r: String)
    requires
        unit == KB || unit == MB || unit == GB,
    ensures
        r@ == spec_scaled(b as nat, unit as nat),
{
    let h: u128 = ((b as u128) * 100 + (unit as u128) / 2) / (unit as u128);
    let mut r = dec_string(h / 100);
    r.append(".");
    r.append(crate::strutil::digit_str((h / 10) % 10));
    r.append(crate::strutil::digit_str(h % 10));
    proof {
        reveal_strlit(".");
        let hs = ((b as nat) * 100 + (unit as nat) / 2) / (unit as nat);
        assert(h == hs);
        assert(r@ =~= spec_scaled(b as nat, unit as nat));
    }
    r
}

/// Render a byte count in human units.
pub fn format_bytes(bytes: u64) -> (r: String)
    ensures
        r@ == spec_format_bytes(bytes),
{
    proof {
        reveal_strlit(" GB");
        reveal_strlit(" MB");
        reveal_strlit(" KB");
        reveal_strlit(" bytes");
    }
    if bytes >= GB {
        let mut r = scaled(bytes, GB);
        r.append(" GB");
        proof {
            assert(r@ =~= spec_format_bytes(bytes));
        }
        r
    } else if bytes >= MB {
        let mut r = scaled(bytes, MB);
        r.append(" MB");
        proof {
            assert(r@ =~= spec_format_bytes(bytes));
        }
        r
    } else if bytes >= KB {
        let mut r = scaled(bytes, KB);
        r.append(" KB");
        proof {
            assert(r@ =~= spec_format_bytes(bytes));
        }
        r
    } else {
        let mut r = dec_string(bytes as u128);
        r.append(" bytes");
        proof {
            assert(r@ =~= spec_format_bytes(bytes));
        }
        r
    }
}

/// The outcome of one transfer, rendered at the end of a run.
pub struct TransferResult {
    pub source: String,
    pub dest_host: String,
    pub dest_path: String,
    pub bytes: u64,
    pub duration_ms: u64,
    pub mode: String,
    pub archive_path: Option<String>,
}

/// The human rendering of a result: the source, the destination, the size
/// when bytes were counted, the time when it was measured, and `ok`.
pub open spec fn spec_render_human(t: TransferResult) -> Seq<char> {
    "sent: "@ + t.source@ + "\n"@ + "to:   "@ + t.dest_host@ + ":"@ + t.dest_path@ + "\n"@ + (if t.bytes
        > 0 {
        "size: "@ + spec_format_bytes(t.bytes) + "\n"@
    } else {
        Seq::<char>::empty()
    }) + (if t.duration_ms > 0 {
        "time: "@ + dec_rep(t.duration_ms as nat) + "ms"@ + "\n"@
    } else {
        Seq::<char>::empty()
    }) + "ok\n"@
}

impl TransferResult {
    /// Render the result as the human-readable lines.
    pub fn render_human(&self) -> (r: String)
        ensures
            r@ == spec_render_human(*self),
    {
        proof {
            reveal_strlit("sent: ");
            reveal_strlit("to:   ");
            reveal_strlit("size: ");
            reveal_strlit("time: ");
            reveal_strlit("ms");
            reveal_strlit(":");
            reveal_strlit("\n");
            reveal_strlit("ok\n");
        }
        let mut r = String::from_str("sent: ");
        r.append(self.source.as_str());
        r.append("\n");
        r.append("to:   ");
        r.append(self.dest_host.as_str());
        r.append(":");
        r.append(self.dest_path.as_str());
        r.append("\n");
        if self.bytes > 0 {
            r.append("size: ");
            let size = format_bytes(self.bytes);
            r.append(size.as_str());
            r.append("\n");
        }
        if self.duration_ms > 0 {
            r.append("time: ");
            let ms = dec_string(self.duration_ms as u128);
            r.append(ms.as_str());
            r.append("ms");
            r.append("\n");
        }
        r.append("ok\n");
        proof {
            assert(r@ =~= spec_render_human(*self));
        }
        r
    }
}

/// How a result is printed: as human lines or as JSON.
pub enum Output {
    Human,
    Json,
}

} // verus!
