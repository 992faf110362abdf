//! The retry loop's decision core.
//!
//! Each iteration of the console loop reads one raw line and must decide:
//! accept it (trim, parse, return the value) or reject it (report the error
//! text and prompt again). `process_line` is that decision, verified.
//! `first_accepted` models the whole loop over the stream of lines the
//! console will yield, and `read_from_lines` runs the loop, verified, over
//! lines already in hand. The I/O shell that blocks on the console only
//! repeats `process_line` until it answers `Some`.

use vstd::prelude::*;
use crate::parse::FromText;
use crate::text::trim_spec;

verus! {

/// What one raw line leads to: the denoted value, if its trimmed text is
/// accepted by the target type, and a retry otherwise.
pub open spec fn line_outcome<T: FromText>(line: Seq<char>) -> Option<T::V> {
    if T::accepts(trim_spec(line)) {
        Some(T::value_of(trim_spec(line)))
    } else {
        None
    }
}

/// Decide what one freshly read line means: trim it, then parse it.
/// `Some` carries the parsed value and ends the loop; `None` tells the
/// caller to report the error text and prompt again.
pub fn process_line<T: FromText>(line: &str) -> (r: Option<T>)
    ensures
        r is Some <==> line_outcome::<T>(line@) is Some,
        r matches Some(v) ==> line_outcome::<T>(line@) == Some(v@),
{
    let t = crate::text::trimmed(line);
    T::from_text(t)
}

/// The position of the first line of `lines` that parses into `T`, if any:
/// the iteration on which the retry loop would return.
pub open spec fn first_accepted<T: FromText>(lines: Seq<Seq<char>>) -> Option<int>
    decreases lines.len(),
{
    if lines.len() == 0 {
        None
    } else if line_outcome::<T>(lines[0]) is Some {
        Some(0)
    } else {
        match first_accepted::<T>(lines.drop_first()) {
            Some(i) => Some(i + 1),
            None => None,
        }
    }
}

proof fn lemma_first_accepted_at<T: FromText>(lines: Seq<Seq<char>>, i: int)
    requires
        0 <= i < lines.len(),
        forall|j: int| 0 <= j < i ==> line_outcome::<T>(lines[j]) is None,
        line_outcome::<T>(lines[i]) is Some,
    ensures
        first_accepted::<T>(lines) == Some(i),
    decreases i,
{
    if i > 0 {
        let t = lines.drop_first();
        assert(forall|j: int| 0 <= j < i - 1 ==> line_outcome::<T>(t[j]) is None);
        lemma_first_accepted_at::<T>(t, i - 1);
    }
}

proof fn lemma_first_accepted_none<T: FromText>(lines: Seq<Seq<char>>)
    requires
        forall|j: int| 0 <= j < lines.len() ==> line_outcome::<T>(lines[j]) is None,
    ensures
        first_accepted::<T>(lines) is None,
    decreases lines.len(),
{
    if lines.len() > 0 {
        let t = lines.drop_first();
        assert(forall|j: int| 0 <= j < t.len() ==> line_outcome::<T>(t[j]) is None);
        lemma_first_accepted_none::<T>(t);
    }
}

/// Run the retry loop over lines already read from the console, in order.
/// On success the result carries the parsed value together with the number
/// of attempts consumed: prompts issued, lines read, and one less than that
/// many error reports. `None` means every line was rejected, so a live
/// console would still be prompting.
pub fn read_from_lines<T: FromText>(lines: &Vec<String>) -> (r: Option<(T, usize)>)
    ensures
        match r {
            Some(p) => {
                &&& 1 <= p.1 <= lines@.len()
                &&& first_accepted::<T>(lines.deep_view()) == Some(p.1 - 1 as int)
                &&& line_outcome::<T>(lines@[p.1 - 1]@) == Some(p.0@)
            },
            None => first_accepted::<T>(lines.deep_view()) is None,
        },
{
    let n = lines.len();
    let mut k: usize = 0;
    while k < n
        invariant
            k <= n == lines@.len(),
            forall|j: int| 0 <= j < k ==> line_outcome::<T>(#[trigger] lines.deep_view()[j]) is None,
        decreases n - k,
    {
        let line: &String = &lines[k];
        match process_line::<T>(line.as_str()) {
            Some(v) => {
                proof {
                    assert(lines.deep_view()[k as int] == lines@[k as int]@);
                    lemma_first_accepted_at::<T>(lines.deep_view(), k as int);
                }
                return Some((v, k + 1));
            },
            None => {
                proof {
                    assert(lines.deep_view()[k as int] == lines@[k as int]@);
                }
                k = k + 1;
            },
        }
    }
    proof {
        lemma_first_accepted_none::<T>(lines.deep_view());
    }
    None
}

/// Independent input segments do not interfere. Reading from the stream
/// `a + b` succeeds where reading from `a` would; and where `a` alone would
/// keep prompting, the combined stream behaves exactly as a fresh read over
/// `b`, shifted past `a`. So a second invocation, consuming the lines after
/// those the first invocation took, is unaffected by the first.
pub proof fn lemma_segments_independent<T: FromText>(a: Seq<Seq<char>>, b: Seq<Seq<char>>)
    ensures
        first_accepted::<T>(a) matches Some(i) ==> first_accepted::<T>(a + b) == Some(i),
        first_accepted::<T>(a) is None ==> (first_accepted::<T>(b) matches Some(j)
            ==> first_accepted::<T>(a + b) == Some(a.len() + j)),
        first_accepted::<T>(a) is None && first_accepted::<T>(b) is None
            ==> first_accepted::<T>(a + b) is None,
    decreases a.len(),
{
    if a.len() == 0 {
        assert(a + b =~= b);
    } else {
        assert((a + b)[0] == a[0]);
        if line_outcome::<T>(a[0]) is None {
            assert((a + b).drop_first() =~= a.drop_first() + b);
            lemma_segments_independent::<T>(a.drop_first(), b);
        }
    }
}

} // verus!
