//! The checks made when reading RTS calibration solutions
//! (DI_JonesMatrices_node???.dat and BandpassCalibration_node???.dat files):
//! file counts, ordering files by node number, and tile counts.

use vstd::prelude::*;

use crate::filenames::strings_view;

verus! {

/// Errors when reading RTS calibration solutions.
#[derive(Debug)]
pub enum RtsReadSolsError {
    NoDiJmFiles { dir: String },
    NoBpCalFiles { dir: String },
    UnequalFileCount { dir: String, di_jm_count: usize, bp_cal_count: usize },
    UnequalTileCountDiJm { expected: usize, got: usize, node_index: usize },
    UnequalTileCountBpCal { expected: usize, got: usize, node_index: usize },
}

/// Which kind of RTS solutions file.
#[derive(Debug, Clone, Copy)]
pub enum RtsFileKind {
    DiJm,
    BpCal,
}

/// Files of a kind were found in `dir`, or the error that none were.
pub fn check_files_found(dir: &str, kind: RtsFileKind, count: usize) -> (r: Result<
    (),
    RtsReadSolsError,
>)
    ensures
        r is Ok <==> count > 0,
        r matches Err(e) ==> match kind {
            RtsFileKind::DiJm => e matches RtsReadSolsError::NoDiJmFiles { dir: d } && d@ == dir@,
            RtsFileKind::BpCal => e matches RtsReadSolsError::NoBpCalFiles { dir: d } && d@
                == dir@,
        },
{
    if count > 0 {
        return Ok(());
    }
    let d = String::from_str(dir);
    match kind {
        RtsFileKind::DiJm => Err(RtsReadSolsError::NoDiJmFiles { dir: d }),
        RtsFileKind::BpCal => Err(RtsReadSolsError::NoBpCalFiles { dir: d }),
    }
}

/// There should be an equal number of files for each type. The number of
/// files corresponds to the number of coarse channels.
pub fn check_equal_file_counts(dir: &str, di_jm_count: usize, bp_cal_count: usize) -> (r: Result<
    (),
    RtsReadSolsError,
>)
    ensures
        r is Ok <==> di_jm_count == bp_cal_count,
        r matches Err(e) ==> e matches RtsReadSolsError::UnequalFileCount {
            dir: d,
            di_jm_count: a,
            bp_cal_count: b,
        } && d@ == dir@ && a == di_jm_count && b == bp_cal_count,
{
    if di_jm_count != bp_cal_count {
        Err(
            RtsReadSolsError::UnequalFileCount {
                dir: String::from_str(dir),
                di_jm_count,
                bp_cal_count,
            },
        )
    } else {
        Ok(())
    }
}

/// The first position from `k` whose count is below `n`.
pub open spec fn first_short(s: Seq<usize>, n: usize, k: int) -> Option<int>
    decreases s.len() - k,
{
    if k >= s.len() {
        None
    } else if s[k] < n {
        Some(k)
    } else {
        first_short(s, n, k + 1)
    }
}

/// The first position from `k` whose count is not `n`.
pub open spec fn first_unequal(s: Seq<usize>, n: usize, k: int) -> Option<int>
    decreases s.len() - k,
{
    if k >= s.len() {
        None
    } else if s[k] != n {
        Some(k)
    } else {
        first_unequal(s, n, k + 1)
    }
}

/// The first node whose DI_JonesMatrices file has fewer tiles than there are
/// unflagged tiles, else the first node whose bandpass file does not have
/// exactly the unflagged tiles: which kind of file, its tile count and its
/// node index.
pub open spec fn spec_tile_count_error(di_jm: Seq<usize>, bp_cal: Seq<usize>, num_unflagged: usize) -> Option<
    (bool, usize, usize),
> {
    match first_short(di_jm, num_unflagged, 0) {
        Some(i) => Some((true, di_jm[i], i as usize)),
        None => match first_unequal(bp_cal, num_unflagged, 0) {
            Some(i) => Some((false, bp_cal[i], i as usize)),
            None => None,
        },
    }
}

proof fn lemma_first_short(s: Seq<usize>, n: usize, k: int)
    requires
        0 <= k,
    ensures
        first_short(s, n, k) is None <==> forall|i: int| k <= i < s.len() ==> #[trigger] s[i] >= n,
        first_short(s, n, k) matches Some(i) ==> k <= i < s.len() && s[i] < n && forall|j: int|
            k <= j < i ==> #[trigger] s[j] >= n,
    decreases s.len() - k,
{
    if k < s.len() {
        lemma_first_short(s, n, k + 1);
    }
}

proof fn lemma_first_unequal(s: Seq<usize>, n: usize, k: int)
    requires
        0 <= k,
    ensures
        first_unequal(s, n, k) is None <==> forall|i: int| k <= i < s.len() ==> #[trigger] s[i] == n,
        first_unequal(s, n, k) matches Some(i) ==> k <= i < s.len() && s[i] != n && forall|j: int|
            k <= j < i ==> #[trigger] s[j] == n,
    decreases s.len() - k,
{
    if k < s.len() {
        lemma_first_unequal(s, n, k + 1);
    }
}

/// The tile counts pass exactly when every DI_JonesMatrices file has at
/// least the unflagged tiles and every bandpass file has exactly them; a
/// problem found names a file, by its node index, whose count breaks that
/// rule, after files whose counts keep it.
pub proof fn lemma_tile_counts(di_jm: Seq<usize>, bp_cal: Seq<usize>, num_unflagged: usize)
    requires
        di_jm.len() <= usize::MAX,
        bp_cal.len() <= usize::MAX,
    ensures
        spec_tile_count_error(di_jm, bp_cal, num_unflagged) is None <==> (forall|i: int|
            0 <= i < di_jm.len() ==> #[trigger] di_jm[i] >= num_unflagged) && (forall|j: int|
            0 <= j < bp_cal.len() ==> #[trigger] bp_cal[j] == num_unflagged),
        spec_tile_count_error(di_jm, bp_cal, num_unflagged) matches Some((is_di_jm, got, node)) ==> {
            if is_di_jm {
                &&& node < di_jm.len()
                &&& got == di_jm[node as int]
                &&& got < num_unflagged
                &&& forall|j: int| 0 <= j < node ==> #[trigger] di_jm[j] >= num_unflagged
            } else {
                &&& node < bp_cal.len()
                &&& got == bp_cal[node as int]
                &&& got != num_unflagged
                &&& forall|j: int| 0 <= j < node ==> #[trigger] bp_cal[j] == num_unflagged
                &&& forall|j: int| 0 <= j < di_jm.len() ==> #[trigger] di_jm[j] >= num_unflagged
            }
        },
{
    lemma_first_short(di_jm, num_unflagged, 0);
    lemma_first_unequal(bp_cal, num_unflagged, 0);
}

/// How a tile-count check's result stands against the first problem found.
pub open spec fn tile_error_is(
    e: Option<(bool, usize, usize)>,
    r: Result<(), RtsReadSolsError>,
    expected: usize,
) -> bool {
    match e {
        None => r is Ok,
        Some(t) => match r {
            Err(RtsReadSolsError::UnequalTileCountDiJm { expected: x, got, node_index }) => t.0
                && x == expected && got == t.1 && node_index == t.2,
            Err(RtsReadSolsError::UnequalTileCountBpCal { expected: x, got, node_index }) => !t.0
                && x == expected && got == t.1 && node_index == t.2,
            _ => false,
        },
    }
}

/// Checks that the number of tiles is the same everywhere: every
/// DI_JonesMatrices file has at least the unflagged tiles, and every
/// bandpass file has exactly them.
pub fn check_tile_counts(
    di_jm_tile_counts: &[usize],
    bp_cal_tile_counts: &[usize],
    num_unflagged_tiles: usize,
) -> (r: Result<(), RtsReadSolsError>)
    requires
        di_jm_tile_counts@.len() > 0,
    ensures
        tile_error_is(
            spec_tile_count_error(di_jm_tile_counts@, bp_cal_tile_counts@, num_unflagged_tiles),
            r,
            di_jm_tile_counts@[0],
        ),
{
    let total_num_tiles = di_jm_tile_counts[0];
    let mut i: usize = 0;
    while i < di_jm_tile_counts.len()
        invariant
            0 <= i <= di_jm_tile_counts@.len(),
            di_jm_tile_counts@.len() > 0,
            total_num_tiles == di_jm_tile_counts@[0],
            first_short(di_jm_tile_counts@, num_unflagged_tiles, 0) == first_short(
                di_jm_tile_counts@,
                num_unflagged_tiles,
                i as int,
            ),
        decreases di_jm_tile_counts@.len() - i,
    {
        if di_jm_tile_counts[i] < num_unflagged_tiles {
            return Err(
                RtsReadSolsError::UnequalTileCountDiJm {
                    expected: total_num_tiles,
                    got: di_jm_tile_counts[i],
                    node_index: i,
                },
            );
        }
        i = i + 1;
    }
    let mut i: usize = 0;
    while i < bp_cal_tile_counts.len()
        invariant
            0 <= i <= bp_cal_tile_counts@.len(),
            di_jm_tile_counts@.len() > 0,
            total_num_tiles == di_jm_tile_counts@[0],
            first_short(di_jm_tile_counts@, num_unflagged_tiles, 0) is None,
            first_unequal(bp_cal_tile_counts@, num_unflagged_tiles, 0) == first_unequal(
                bp_cal_tile_counts@,
                num_unflagged_tiles,
                i as int,
            ),
        decreases bp_cal_tile_counts@.len() - i,
    {
        if bp_cal_tile_counts[i] != num_unflagged_tiles {
            return Err(
                RtsReadSolsError::UnequalTileCountBpCal {
                    expected: total_num_tiles,
                    got: bp_cal_tile_counts[i],
                    node_index: i,
                },
            );
        }
        i = i + 1;
    }
    Ok(())
}

/// The text of the first capture group of the `regex` crate's regex
/// `pattern` in `text`: `None` when the pattern does not build or does not
/// match.
pub uninterp spec fn regex_first_capture(pattern: Seq<char>, text: Seq<char>) -> Option<Seq<char>>;

/// `regex::Regex::new(pattern)` and `Regex::captures(text)`, group 1: the
/// result is the value named [`regex_first_capture`]; nothing more of it is
/// stated.
#[verifier::external_body]
fn first_capture(pattern: &str, text: &str) -> (r: Option<String>)
    ensures
        match r {
            Some(s) => regex_first_capture(pattern@, text@) == Some(s@),
            None => regex_first_capture(pattern@, text@) is None,
        },
{
    match regex::Regex::new(pattern) {
        Ok(re) => match re.captures(text) {
            Some(caps) => match caps.get(1) {
                Some(m) => Some(m.as_str().to_string()),
                None => None,
            },
            None => None,
        },
        Err(_) => None,
    }
}

pub const NODE_NUM: &'static str = "node(\\d{3})\\.dat$";

pub open spec fn digit_value(c: char) -> int {
    c as int - '0' as int
}

pub open spec fn is_ascii_digit(c: char) -> bool {
    '0' <= c && c <= '9'
}

/// The value of a string of ASCII digits.
pub open spec fn digits_value(s: Seq<char>) -> int
    decreases s.len(),
{
    if s.len() == 0 {
        0
    } else {
        digits_value(s.drop_last()) * 10 + digit_value(s.last())
    }
}

/// The digits after an optional leading `+`.
pub open spec fn unsigned_part(s: Seq<char>) -> Seq<char> {
    if s.len() > 0 && s[0] == '+' {
        s.drop_first()
    } else {
        s
    }
}

pub open spec fn all_digits(d: Seq<char>) -> bool {
    forall|i: int| 0 <= i < d.len() ==> is_ascii_digit(#[trigger] d[i])
}

/// What `str::parse::<u8>` gives: an optional `+` followed by at least one
/// ASCII digit, with a value of at most 255.
pub open spec fn spec_parse_u8(s: Seq<char>) -> Option<u8> {
    let d = unsigned_part(s);
    if d.len() > 0 && all_digits(d) && digits_value(d) <= 255 {
        Some(digits_value(d) as u8)
    } else {
        None
    }
}

/// Parses a `u8` written in decimal.
pub fn parse_u8(s: &str) -> (r: Option<u8>)
    ensures
        r == spec_parse_u8(s@),
{
    let cs = crate::text::chars_of(s);
    let start: usize = if cs.len() > 0 && cs[0] == '+' {
        1
    } else {
        0
    };
    let ghost d = unsigned_part(s@);
    assert(d =~= cs@.skip(start as int));
    if start >= cs.len() {
        return None;
    }
    let mut v: u64 = 0;
    let mut i: usize = start;
    assert(d.take(0) =~= seq![]);
    while i < cs.len()
        invariant
            start <= i <= cs@.len(),
            cs@ == s@,
            d == cs@.skip(start as int),
            forall|k: int| 0 <= k < i - start ==> is_ascii_digit(#[trigger] d[k]),
            v == digits_value(d.take(i - start)),
            v <= 255,
            d == unsigned_part(s@),
        decreases cs@.len() - i,
    {
        let c = cs[i];
        assert(d[i - start] == c);
        if !('0' <= c && c <= '9') {
            assert(!is_ascii_digit(d[i - start]));
            assert(!all_digits(d));
            return None;
        }
        let dv = (c as u64) - ('0' as u64);
        let ghost k1 = i - start + 1;
        assert(d.take(k1).drop_last() =~= d.take(i - start));
        assert(d.take(k1).last() == c);
        let next = v * 10 + dv;
        assert(next == digits_value(d.take(k1)));
        assert(forall|k: int| 0 <= k < k1 ==> is_ascii_digit(#[trigger] d[k]));
        i = i + 1;
        if next > 255 {
            proof {
                lemma_prefix_too_big(d, k1);
            }
            return None;
        }
        v = next;
    }
    assert(d.take(i - start) =~= d);
    Some(v as u8)
}

/// A prefix of digits whose value passes 255 makes the whole value pass it.
proof fn lemma_prefix_too_big(d: Seq<char>, k: int)
    requires
        0 < k <= d.len(),
        digits_value(d.take(k)) > 255,
        forall|i: int| 0 <= i < k ==> is_ascii_digit(#[trigger] d[i]),
    ensures
        !(d.len() > 0 && all_digits(d) && digits_value(d) <= 255),
    decreases d.len() - k,
{
    if k < d.len() {
        if all_digits(d) {
            assert(d.take(k + 1).drop_last() =~= d.take(k));
            assert(is_ascii_digit(d[k]));
            assert(d.take(k + 1).last() == d[k]);
            lemma_prefix_too_big(d, k + 1);
        }
    } else {
        assert(d.take(k) =~= d);
    }
}

/// The node number of an RTS solutions file name.
pub open spec fn spec_node_number(file: Seq<char>) -> Option<u8> {
    match regex_first_capture(NODE_NUM@, file) {
        Some(c) => spec_parse_u8(c),
        None => None,
    }
}

/// The node number of an RTS solutions file name (`node(\d{3})\.dat$`),
/// when it has one that fits a `u8`.
pub fn node_number(file: &str) -> (r: Option<u8>)
    ensures
        r == spec_node_number(file@),
{
    match first_capture(NODE_NUM, file) {
        Some(c) => parse_u8(c.as_str()),
        None => None,
    }
}

/// The files whose key is `k`, in their order.
pub open spec fn with_key(files: Seq<Seq<char>>, keys: Seq<u8>, k: int) -> Seq<Seq<char>>
    decreases files.len(),
{
    if files.len() == 0 || keys.len() < files.len() {
        seq![]
    } else {
        let prev = with_key(files.drop_last(), keys, k);
        if keys[files.len() - 1] == k {
            prev.push(files.last())
        } else {
            prev
        }
    }
}

/// The files ordered by key (keys below `k`), equal keys in their order.
pub open spec fn ordered_by_key(files: Seq<Seq<char>>, keys: Seq<u8>, k: nat) -> Seq<Seq<char>>
    decreases k,
{
    if k == 0 {
        seq![]
    } else {
        ordered_by_key(files, keys, (k - 1) as nat) + with_key(files, keys, k - 1)
    }
}

/// Every file has a node number, which is its key.
pub open spec fn keyed_by_node(files: Seq<Seq<char>>, keys: Seq<u8>) -> bool {
    &&& keys.len() == files.len()
    &&& forall|i: int| 0 <= i < files.len() ==> spec_node_number(#[trigger] files[i]) == Some(keys[i])
}

/// Whether every file name has a node number (sorting by node number aborts
/// otherwise).
pub fn all_have_node_numbers(files: &[String]) -> (b: bool)
    ensures
        b == forall|i: int| 0 <= i < files@.len() ==> #[trigger] spec_node_number(files@[i]@) is Some,
{
    let mut i: usize = 0;
    while i < files.len()
        invariant
            0 <= i <= files@.len(),
            forall|j: int| 0 <= j < i ==> #[trigger] spec_node_number(files@[j]@) is Some,
        decreases files@.len() - i,
    {
        if node_number(files[i].as_str()).is_none() {
            return false;
        }
        i = i + 1;
    }
    true
}

/// Sorts the array of files by coarse channel (node number).
pub fn sort_by_node_number(files: &[String]) -> (sorted: Vec<String>)
    requires
        forall|i: int| 0 <= i < files@.len() ==> #[trigger] spec_node_number(files@[i]@) is Some,
    ensures
        exists|keys: Seq<u8>|
            keyed_by_node(strings_view(files@), keys) && strings_view(sorted@) == ordered_by_key(
                strings_view(files@),
                keys,
                256,
            ),
{
    let ghost fv = strings_view(files@);
    let mut keys: Vec<u8> = Vec::new();
    let mut i: usize = 0;
    while i < files.len()
        invariant
            0 <= i <= files@.len(),
            fv == strings_view(files@),
            keys@.len() == i,
            forall|q: int| 0 <= q < files@.len() ==> #[trigger] spec_node_number(files@[q]@) is Some,
            forall|j: int| 0 <= j < i ==> spec_node_number(#[trigger] fv[j]) == Some(keys@[j]),
        decreases files@.len() - i,
    {
        match node_number(files[i].as_str()) {
            Some(k) => keys.push(k),
            None => {
                assert(false);
                return Vec::new();
            },
        }
        i = i + 1;
    }
    let ghost kv = keys@;
    assert(keyed_by_node(fv, kv));
    let mut sorted: Vec<String> = Vec::new();
    let mut k: u16 = 0;
    while k < 256
        invariant
            0 <= k <= 256,
            fv == strings_view(files@),
            kv == keys@,
            kv.len() == fv.len(),
            strings_view(sorted@) == ordered_by_key(fv, kv, k as nat),
        decreases 256 - k,
    {
        let ghost start = strings_view(sorted@);
        let mut j: usize = 0;
        assert(fv.take(0) =~= seq![]);
        assert(start + with_key(fv.take(0), kv, k as int) =~= start);
        while j < files.len()
            invariant
                0 <= j <= files@.len(),
                fv == strings_view(files@),
                kv == keys@,
                kv.len() == fv.len(),
                k < 256,
                strings_view(sorted@) == start + with_key(fv.take(j as int), kv, k as int),
            decreases files@.len() - j,
        {
            assert(fv.take(j + 1).drop_last() =~= fv.take(j as int));
            assert(fv.take(j + 1).last() == fv[j as int]);
            if keys[j] as u16 == k {
                let ghost before = sorted@;
                sorted.push(files[j].clone());
                assert(strings_view(sorted@) =~= strings_view(before).push(files@[j as int]@));
            }
            j = j + 1;
            assert(strings_view(sorted@) =~= start + with_key(fv.take(j as int), kv, k as int));
        }
        assert(fv.take(j as int) =~= fv);
        k = k + 1;
    }
    sorted
}

/// Sorts files by coarse channel (node number) when every file name has a
/// node number; `None` when one does not (sorting by node number aborts on
/// such a name).
pub fn sorted_by_node_number(files: &[String]) -> (r: Option<Vec<String>>)
    ensures
        r is None <==> exists|i: int|
            0 <= i < files@.len() && #[trigger] spec_node_number(files@[i]@) is None,
        r matches Some(sorted) ==> exists|keys: Seq<u8>|
            keyed_by_node(strings_view(files@), keys) && strings_view(sorted@) == ordered_by_key(
                strings_view(files@),
                keys,
                256,
            ),
{
    if all_have_node_numbers(files) {
        Some(sort_by_node_number(files))
    } else {
        None
    }
}

} // verus!
