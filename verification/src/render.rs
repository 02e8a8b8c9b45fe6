use vstd::prelude::*;
use vstd::string::StringExecFns;
use crate::window::{Snapshot, SnapshotModel};

verus! {

/// The character for a decimal digit.
pub open spec fn digit_char(d: nat) -> char {
    if d == 0 {
        '0'
    } else if d == 1 {
        '1'
    } else if d == 2 {
        '2'
    } else if d == 3 {
        '3'
    } else if d == 4 {
        '4'
    } else if d == 5 {
        '5'
    } else if d == 6 {
        '6'
    } else if d == 7 {
        '7'
    } else if d == 8 {
        '8'
    } else {
        '9'
    }
}

/// The decimal rendering of `n`, most significant digit first, no sign and
/// no leading zeros (a single zero for 0).
pub open spec fn decimal(n: nat) -> Seq<char>
    decreases n,
{
    if n < 10 {
        seq![digit_char(n)]
    } else {
        decimal(n / 10).push(digit_char(n % 10))
    }
}

/// The one-character string for a decimal digit.
fn digit_str(d: u64) -> (s: &'static str)
    requires
        d < 10,
    ensures
        s@ == seq![digit_char(d as nat)],
{
    if d == 0 {
        proof {
            reveal_strlit("0");
            assert("0"@ =~= seq![digit_char(0nat)]);
        }
        "0"
    } else if d == 1 {
        proof {
            reveal_strlit("1");
            assert("1"@ =~= seq![digit_char(1nat)]);
        }
        "1"
    } else if d == 2 {
        proof {
            reveal_strlit("2");
            assert("2"@ =~= seq![digit_char(2nat)]);
        }
        "2"
    } else if d == 3 {
        proof {
            reveal_strlit("3");
            assert("3"@ =~= seq![digit_char(3nat)]);
        }
        "3"
    } else if d == 4 {
        proof {
            reveal_strlit("4");
            assert("4"@ =~= seq![digit_char(4nat)]);
        }
        "4"
    } else if d == 5 {
        proof {
            reveal_strlit("5");
            assert("5"@ =~= seq![digit_char(5nat)]);
        }
        "5"
    } else if d == 6 {
        proof {
            reveal_strlit("6");
            assert("6"@ =~= seq![digit_char(6nat)]);
        }
        "6"
    } else if d == 7 {
        proof {
            reveal_strlit("7");
            assert("7"@ =~= seq![digit_char(7nat)]);
        }
        "7"
    } else if d == 8 {
        proof {
            reveal_strlit("8");
            assert("8"@ =~= seq![digit_char(8nat)]);
        }
        "8"
    } else {
        proof {
            reveal_strlit("9");
            assert("9"@ =~= seq![digit_char(9nat)]);
        }
        "9"
    }
}

/// Appends the decimal rendering of `n` to `out`.
pub fn append_decimal(out: &mut String, n: u64)
    ensures
        final(out)@ == old(out)@ + decimal(n as nat),
    decreases n,
{
    if n >= 10 {
        append_decimal(out, n / 10);
    }
    let ds = digit_str(n % 10);
    out.append(ds);
    proof {
        if n < 10 {
            assert(final(out)@ =~= old(out)@ + decimal(n as nat));
        } else {
            assert(decimal(n as nat) == decimal((n / 10) as nat).push(digit_char((n % 10) as nat)));
            assert(final(out)@ =~= old(out)@ + decimal(n as nat));
        }
    }
}

/// One line of the count table: two spaces, the label, a colon and a space,
/// the count, a newline.
pub open spec fn count_line(label: Seq<char>, count: nat) -> Seq<char> {
    "  "@ + label + ": "@ + decimal(count) + "\n"@
}

/// The count-table lines for the first `n` categories, in order.
pub open spec fn count_lines(s: SnapshotModel, n: int) -> Seq<char>
    decreases n,
{
    if n <= 0 {
        Seq::empty()
    } else {
        count_lines(s, n - 1) + count_line(s.labels[n - 1], s.counts[n - 1])
    }
}

/// The full human-readable report for a snapshot: a heading, one line per
/// known category (zeros included), and the distinct-user line.
pub open spec fn report(s: SnapshotModel) -> Seq<char> {
    "Event Counts:\n"@ + count_lines(s, s.labels.len() as int) + "Distinct Users: "@ + decimal(
        s.distinct_users,
    ) + "\n"@
}

/// Renders the report that a flush writes to the output stream.
pub fn render_report(s: &Snapshot) -> (out: String)
    requires
        s.counts@.len() == s.categories@.len(),
    ensures
        out@ == report(s@),
{
    let mut out: String = "Event Counts:\n".to_owned();
    proof {
        assert(out@ =~= "Event Counts:\n"@ + count_lines(s@, 0));
    }
    let n: usize = s.categories.len();
    let mut i: usize = 0;
    while i < n
        invariant
            n == s.categories@.len(),
            s.counts@.len() == n,
            i <= n,
            out@ == "Event Counts:\n"@ + count_lines(s@, i as int),
        decreases n - i,
    {
        out.append("  ");
        out.append(s.categories[i].as_str());
        out.append(": ");
        append_decimal(&mut out, s.counts[i]);
        out.append("\n");
        proof {
            assert(out@ =~= "Event Counts:\n"@ + count_lines(s@, i as int + 1));
        }
        i += 1;
    }
    out.append("Distinct Users: ");
    let d: u64 = s.distinct_users as u64;
    append_decimal(&mut out, d);
    out.append("\n");
    proof {
        assert(out@ =~= report(s@));
    }
    out
}

} // verus!
