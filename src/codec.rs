use vstd::prelude::*;
use crate::grid::{
    Grid, GridView, MAX_SIZE, is_layout, is_taken, identity_orientation, lemma_wf_layout,
    lemma_view_determined, lemma_size_bounds,
};
use crate::orientation::{Orientation, lemma_byte_round_trip};
use crate::text::push_char;
use crate::random::os_random_u32;

verus! {

/// A board as a string of byte pairs, indexed by tile id. Entry `k` holds tile
/// `k`'s cell number (`z * size + x + 1`) and its orientation byte; entry 0 holds
/// the blank's cell number and a zero byte.
pub struct BoardString(pub Vec<(u8, u8)>);

impl View for BoardString {
    type V = Seq<(u8, u8)>;

    open spec fn view(&self) -> Seq<(u8, u8)> {
        self.0@
    }
}

/// Why a board string was refused.
#[derive(Clone, Copy, Debug, PartialEq, Eq, Structural)]
pub enum DecodeError {
    /// The string does not hold one entry per cell.
    WrongLength,
    /// A cell number is out of range or repeated, so some cell is named by no entry.
    BadPosition,
    /// An orientation byte is no orientation's code, or the blank's byte is not zero.
    BadOrientation,
}

/// The characters that spell a key, one for each six bits.
pub open spec fn corpus_char(i: int) -> char {
    if i < 26 {
        (97 + i) as char
    } else if i < 52 {
        (65 + i - 26) as char
    } else if i < 62 {
        (48 + i - 52) as char
    } else if i == 62 {
        '!'
    } else {
        '#'
    }
}

/// Shortest length of a key.
pub const KEY_MIN_LEN: usize = 6;

/// The six-bit digits of `h`, least significant first.
pub open spec fn key_digits(h: nat) -> Seq<char>
    decreases h,
{
    if h == 0 {
        Seq::empty()
    } else {
        seq![corpus_char((h % 64) as int)] + key_digits(h / 64)
    }
}

/// The key of a hash: its digits, right-padded with `a` up to the shortest length.
pub open spec fn key_of_hash(h: nat) -> Seq<char> {
    let d = key_digits(h);
    if d.len() < KEY_MIN_LEN {
        d + Seq::new((KEY_MIN_LEN - d.len()) as nat, |i: int| 'a')
    } else {
        d
    }
}

/// Names the digest that std's `DefaultHasher` gives for a sequence of pairs.
pub uninterp spec fn default_hash_of(s: Seq<(u8, u8)>) -> u64;

/// The string of a well-formed board.
pub open spec fn encoded(g: GridView) -> Seq<(u8, u8)> {
    Seq::new(
        g.n() as nat,
        |k: int|
            if k == 0 {
                ((g.position_of[0] + 1) as u8, 0u8)
            } else {
                ((g.position_of[k] + 1) as u8, g.orientation_of[k].byte_spec() as u8)
            },
    )
}

/// The cell of each entry.
pub open spec fn positions_of(s: Seq<(u8, u8)>) -> Seq<int> {
    s.map_values(|e: (u8, u8)| e.0 as int - 1)
}

/// The orientation of each entry (the identity for the blank's).
pub open spec fn orientations_of(s: Seq<(u8, u8)>) -> Seq<Orientation> {
    Seq::new(
        s.len(),
        |k: int|
            if k == 0 {
                identity_orientation()
            } else {
                Orientation::of_byte(s[k].1)
            },
    )
}

pub open spec fn orientations_valid(s: Seq<(u8, u8)>) -> bool {
    &&& s[0].1 == 0
    &&& forall|k: int| 1 <= k < s.len() ==> Orientation::byte_is_valid(#[trigger] s[k].1)
}

/// The string of a byte array: consecutive bytes paired up.
pub open spec fn pairs_of(b: Seq<u8>) -> Seq<(u8, u8)> {
    Seq::new(b.len() / 2, |i: int| (b[2 * i], b[2 * i + 1]))
}

/// The byte array of a string: each pair's two bytes in turn.
pub open spec fn bytes_of(s: Seq<(u8, u8)>) -> Seq<u8> {
    Seq::new(2 * s.len(), |i: int| if i % 2 == 0 { s[i / 2].0 } else { s[i / 2].1 })
}

/// Relies on `Hash` for `Vec<(u8, u8)>` fed to a fresh `std`
/// `collections::hash_map::DefaultHasher` (fixed keys), then `finish`: a digest
/// of the entries alone.
#[verifier::external_body]
fn default_hash(pairs: &Vec<(u8, u8)>) -> (r: u64)
    ensures
        r == default_hash_of(pairs@),
{
    let mut s = std::collections::hash_map::DefaultHasher::new();
    std::hash::Hash::hash(pairs, &mut s);
    std::hash::Hasher::finish(&s)
}

fn corpus(i: u64) -> (r: char)
    requires
        i < 64,
    ensures
        r == corpus_char(i as int),
{
    if i < 26 {
        ((97 + i) as u8) as char
    } else if i < 52 {
        ((65 + i - 26) as u8) as char
    } else if i < 62 {
        ((48 + i - 52) as u8) as char
    } else if i == 62 {
        '!'
    } else {
        '#'
    }
}

impl BoardString {
    /// An all-zero string for a board of side `size`.
    pub fn new(size: usize) -> (r: BoardString)
        requires
            size <= MAX_SIZE,
        ensures
            r@ == Seq::new(size as nat * size as nat, |i: int| (0u8, 0u8)),
    {
        proof {
            assert(size * size <= MAX_SIZE * MAX_SIZE) by (nonlinear_arith)
                requires
                    size <= MAX_SIZE,
            ;
        }
        let n = size * size;
        let mut v: Vec<(u8, u8)> = Vec::new();
        let mut i: usize = 0;
        while i < n
            invariant
                i <= n,
                v@ == Seq::new(i as nat, |j: int| (0u8, 0u8)),
            decreases n - i,
        {
            v.push((0, 0));
            proof {
                assert(v@ =~= Seq::new((i + 1) as nat, |j: int| (0u8, 0u8)));
            }
            i = i + 1;
        }
        BoardString(v)
    }

    /// The hash of the string, cut to 36 bits.
    fn into_hash(&self) -> (r: u64)
        ensures
            r == default_hash_of(self@) % 0x10_0000_0000,
    {
        default_hash(&self.0) % 0x10_0000_0000
    }

    /// A short key for sharing the board: the 36-bit hash in six-bit digits,
    /// least significant first, padded with `a` to six characters.
    pub fn into_key(&self) -> (r: String)
        ensures
            r@ == key_of_hash((default_hash_of(self@) % 0x10_0000_0000) as nat),
    {
        let hash = self.into_hash();
        key_from_hash(hash)
    }

    /// The key followed by one more character, chosen by `draw`: the next try
    /// when a key is taken.
    pub fn retry_into_key_with(curr: String, draw: usize) -> (r: String)
        ensures
            r@ == curr@.push(corpus_char((draw % 64) as int)),
    {
        let mut r = curr;
        push_char(&mut r, corpus((draw % 64) as u64));
        r
    }

    /// The key followed by one random character of the key alphabet, or none
    /// when the system's generator fails.
    pub fn retry_into_key(curr: String) -> (r: Option<String>)
        ensures
            r matches Some(k) ==> exists|d: int| 0 <= d < 64 && k@ == curr@.push(#[trigger] corpus_char(d)),
    {
        match os_random_u32() {
            Some(draw) => {
                let r = Self::retry_into_key_with(curr, draw as usize);
                proof {
                    let d = (draw as usize % 64) as int;
                    assert(r@ == curr@.push(corpus_char(d)));
                }
                Some(r)
            },
            None => None,
        }
    }

    /// The pairs as a flat byte array.
    pub fn to_arr(&self) -> (r: Vec<u8>)
        requires
            self@.len() * 2 <= usize::MAX,
        ensures
            r@ == bytes_of(self@),
    {
        let mut v: Vec<u8> = Vec::new();
        let mut i: usize = 0;
        while i < self.0.len()
            invariant
                i <= self@.len(),
                self@.len() * 2 <= usize::MAX,
                v@.len() == 2 * i,
                forall|j: int| 0 <= j < 2 * i ==> v@[j] == bytes_of(self@)[j],
            decreases self@.len() - i,
        {
            let e = self.0[i];
            v.push(e.0);
            v.push(e.1);
            i = i + 1;
        }
        proof {
            assert(v@ =~= bytes_of(self@));
        }
        v
    }

    /// A string read from a flat byte array, pairing consecutive bytes (a last
    /// odd byte is left out).
    pub fn from_arr(query_result: &Vec<u8>) -> (r: BoardString)
        ensures
            r@ == pairs_of(query_result@),
    {
        let m = query_result.len() / 2;
        let mut v: Vec<(u8, u8)> = Vec::new();
        let mut i: usize = 0;
        while i < m
            invariant
                m == query_result@.len() / 2,
                query_result@.len() <= usize::MAX,
                i <= m,
                v@.len() == i,
                forall|j: int| 0 <= j < i ==> v@[j] == pairs_of(query_result@)[j],
            decreases m - i,
        {
            proof {
                let len = query_result@.len() as int;
                vstd::arithmetic::div_mod::lemma_fundamental_div_mod(len, 2);
                assert(i + i + 1 < len) by (nonlinear_arith)
                    requires
                        len == 2 * (len / 2) + len % 2,
                        len % 2 >= 0,
                        i < m,
                        m == len / 2,
                ;
            }
            v.push((query_result[i + i], query_result[i + i + 1]));
            i = i + 1;
        }
        proof {
            assert(v@ =~= pairs_of(query_result@));
        }
        BoardString(v)
    }
}

proof fn lemma_key_digits_len(h: nat)
    ensures
        key_digits(h).len() <= h,
    decreases h,
{
    if h > 0 {
        lemma_key_digits_len(h / 64);
    }
}

/// The key of a 36-bit hash.
fn key_from_hash(hash: u64) -> (r: String)
    ensures
        r@ == key_of_hash(hash as nat),
{
    let mut key = String::new();
    let mut count: u64 = 0;
    let mut rest = hash;
    proof {
        lemma_key_digits_len(hash as nat);
    }
    while rest > 0
        invariant
            key@ + key_digits(rest as nat) == key_digits(hash as nat),
            count == key@.len(),
            count + key_digits(rest as nat).len() == key_digits(hash as nat).len(),
            key_digits(hash as nat).len() <= hash,
        decreases rest,
    {
        let c = corpus(rest % 64);
        proof {
            assert(key_digits(rest as nat) == seq![c] + key_digits((rest / 64) as nat));
            assert(key@.push(c) + key_digits((rest / 64) as nat) =~= key@ + (seq![c] + key_digits(
                (rest / 64) as nat,
            )));
        }
        push_char(&mut key, c);
        count = count + 1;
        rest = rest / 64;
    }
    proof {
        assert(key_digits(0) == Seq::<char>::empty());
        assert(key@ =~= key_digits(hash as nat));
    }
    let ghost digits = key@;
    while count < KEY_MIN_LEN as u64
        invariant
            count == key@.len(),
            digits == key_digits(hash as nat),
            key@.len() >= digits.len(),
            key@ == digits + Seq::new((key@.len() - digits.len()) as nat, |i: int| 'a'),
            digits.len() < KEY_MIN_LEN ==> key@.len() <= KEY_MIN_LEN,
            digits.len() >= KEY_MIN_LEN ==> key@.len() == digits.len(),
        decreases KEY_MIN_LEN - key@.len(),
    {
        push_char(&mut key, 'a');
        count = count + 1;
        proof {
            assert(key@ =~= digits + Seq::new((key@.len() - digits.len()) as nat, |i: int| 'a'));
        }
    }
    proof {
        if digits.len() >= KEY_MIN_LEN {
            assert(key@ =~= digits);
        }
        assert(key@ =~= key_of_hash(hash as nat));
    }
    key
}

/// The string of a board: for each tile its cell number and orientation byte,
/// and for the blank its cell number.
pub fn board_to_string(grid: &Grid) -> (r: BoardString)
    requires
        grid@.wf(),
    ensures
        r@ == encoded(grid@),
{
    let ghost g = grid@;
    let size = grid.size();
    proof {
        lemma_size_bounds(size as int);
    }
    let n = size * size;
    let mut v: Vec<(u8, u8)> = Vec::new();
    let mut k: usize = 0;
    while k < n
        invariant
            g == grid@,
            g.wf(),
            n == g.n(),
            k <= n,
            v@.len() == k,
            forall|j: int| 0 <= j < k ==> v@[j] == encoded(g)[j],
        decreases n - k,
    {
        let p = grid.position(k);
        if k == 0 {
            v.push(((p + 1) as u8, 0));
        } else {
            let o = grid.orientation(k);
            proof {
                lemma_byte_round_trip(o);
            }
            v.push(((p + 1) as u8, o.to_byte()));
        }
        k = k + 1;
    }
    proof {
        assert(v@ =~= encoded(g));
    }
    BoardString(v)
}

/// Rebuilds the board from its string. On success every tile stands at the cell
/// and in the orientation that its entry names; on failure `grid` is left as it was.
pub fn string_to_board(board_string: &BoardString, grid: &mut Grid) -> (r: Result<(), DecodeError>)
    requires
        old(grid)@.wf(),
    ensures
        board_string@.len() != old(grid)@.n() ==> r == Err::<(), DecodeError>(
            DecodeError::WrongLength,
        ),
        board_string@.len() == old(grid)@.n() && !is_layout(
            old(grid)@.size,
            positions_of(board_string@),
        ) ==> r == Err::<(), DecodeError>(DecodeError::BadPosition),
        board_string@.len() == old(grid)@.n() && is_layout(
            old(grid)@.size,
            positions_of(board_string@),
        ) && !orientations_valid(board_string@) ==> r == Err::<(), DecodeError>(
            DecodeError::BadOrientation,
        ),
        r is Err ==> final(grid)@ == old(grid)@,
        r is Ok ==> final(grid)@.wf() && final(grid)@.size == old(grid)@.size
            && final(grid)@.position_of == positions_of(board_string@)
            && final(grid)@.orientation_of == orientations_of(board_string@),
        r is Ok <==> board_string@.len() == old(grid)@.n() && is_layout(
            old(grid)@.size,
            positions_of(board_string@),
        ) && orientations_valid(board_string@),
{
    let ghost s = board_string@;
    let ghost pos = positions_of(s);
    let size = grid.size();
    proof {
        lemma_size_bounds(size as int);
    }
    let n = size * size;
    if board_string.0.len() != n {
        return Err(DecodeError::WrongLength);
    }
    // Each entry names a distinct cell in range.
    let mut seen: Vec<bool> = Vec::new();
    let mut c: usize = 0;
    while c < n
        invariant
            grid@ == old(grid)@,
            n == old(grid)@.n(),
            size == old(grid)@.size,
            1 <= size <= MAX_SIZE,
            c <= n,
            seen@.len() == c,
            forall|i: int| 0 <= i < c ==> !seen@[i],
        decreases n - c,
    {
        seen.push(false);
        c = c + 1;
    }
    let mut k: usize = 0;
    while k < n
        invariant
            grid@ == old(grid)@,
            n == old(grid)@.n(),
            size == old(grid)@.size,
            1 <= size <= MAX_SIZE,
            s == board_string@,
            s.len() == n,
            n == size * size,
            1 <= size <= MAX_SIZE,
            pos == positions_of(s),
            k <= n,
            seen@.len() == n,
            forall|i: int| 0 <= i < k ==> 0 <= #[trigger] pos[i] < n,
            forall|i: int, j: int| 0 <= i < k && 0 <= j < k && i != j ==> pos[i] != pos[j],
            forall|i: int| 0 <= i < k ==> seen@[#[trigger] pos[i]],
            forall|c: int| 0 <= c < n && #[trigger] seen@[c] ==> exists|i: int| 0 <= i < k && pos[i] == c,
        decreases n - k,
    {
        let p = board_string.0[k].0 as usize;
        proof {
            assert(pos[k as int] == p as int - 1);
        }
        if p == 0 || p > n {
            return Err(DecodeError::BadPosition);
        }
        if seen[p - 1] {
            proof {
                let i = choose|i: int| 0 <= i < k && pos[i] == (p - 1) as int;
                assert(pos[i] == pos[k as int]);
            }
            return Err(DecodeError::BadPosition);
        }
        seen.set(p - 1, true);
        k = k + 1;
    }
    // Every cell is named.
    let mut c: usize = 0;
    while c < n
        invariant
            grid@ == old(grid)@,
            n == old(grid)@.n(),
            size == old(grid)@.size,
            1 <= size <= MAX_SIZE,
            s == board_string@,
            s.len() == n,
            pos == positions_of(s),
            seen@.len() == n,
            c <= n,
            forall|cc: int| 0 <= cc < n && #[trigger] seen@[cc] ==> exists|i: int| 0 <= i < n && pos[i] == cc,
            forall|cc: int| 0 <= cc < c ==> #[trigger] is_taken(pos, cc),
            forall|i: int| 0 <= i < n ==> seen@[#[trigger] pos[i]],
        decreases n - c,
    {
        if !seen[c] {
            proof {
                assert(!is_taken(pos, c as int)) by {
                    if is_taken(pos, c as int) {
                        let i = choose|i: int| 0 <= i < pos.len() && #[trigger] pos[i] == c as int;
                        assert(seen@[pos[i]]);
                        assert(false);
                    }
                }
            }
            return Err(DecodeError::BadPosition);
        }
        proof {
            let i = choose|i: int| 0 <= i < n && pos[i] == c as int;
            assert(pos[i] == c as int);
        }
        c = c + 1;
    }
    proof {
        assert(is_layout(size as nat, pos));
    }
    // The tables, reading each orientation byte.
    let mut position_of: Vec<usize> = Vec::new();
    let mut orientation_of: Vec<Orientation> = Vec::new();
    if board_string.0[0].1 != 0 {
        return Err(DecodeError::BadOrientation);
    }
    let mut k: usize = 0;
    while k < n
        invariant
            grid@ == old(grid)@,
            n == old(grid)@.n(),
            size == old(grid)@.size,
            1 <= size <= MAX_SIZE,
            s == board_string@,
            s.len() == n,
            n == size * size,
            pos == positions_of(s),
            is_layout(size as nat, pos),
            s[0].1 == 0,
            k <= n,
            position_of@.len() == k,
            orientation_of@.len() == k,
            forall|j: int| 0 <= j < k ==> position_of@[j] as int == pos[j],
            forall|j: int| 0 <= j < k ==> orientation_of@[j] == orientations_of(s)[j],
            forall|j: int| 1 <= j < k ==> Orientation::byte_is_valid(#[trigger] s[j].1),
        decreases n - k,
    {
        let e = board_string.0[k];
        proof {
            assert(0 <= pos[k as int] < n);
        }
        position_of.push(e.0 as usize - 1);
        if k == 0 {
            orientation_of.push(Orientation::identity());
        } else {
            match Orientation::from_byte(e.1) {
                Some(o) => orientation_of.push(o),
                None => {
                    return Err(DecodeError::BadOrientation);
                },
            }
        }
        k = k + 1;
    }
    proof {
        assert(position_of@.map_values(|p: usize| p as int) =~= pos);
        assert(orientation_of@ =~= orientations_of(s));
        assert forall|j: int| 1 <= j < size * size implies (#[trigger] orientation_of@[j]).wf() by {
            assert(Orientation::byte_is_valid(s[j].1));
        }
    }
    *grid = Grid::from_tables(size, position_of, orientation_of);
    Ok(())
}

/// The string of a well-formed board decodes: its entries form a layout with
/// valid orientation bytes, and read back to the board's own tables.
pub proof fn lemma_encoded_decodes(g: GridView)
    requires
        g.wf(),
    ensures
        encoded(g).len() == g.n(),
        is_layout(g.size, positions_of(encoded(g))),
        orientations_valid(encoded(g)),
        positions_of(encoded(g)) == g.position_of,
        orientations_of(encoded(g)) == g.orientation_of,
{
    let s = encoded(g);
    lemma_size_bounds(g.size as int);
    lemma_wf_layout(g);
    assert(g.n() <= MAX_SIZE * MAX_SIZE) by (nonlinear_arith)
        requires
            g.size <= MAX_SIZE,
            g.n() == g.size * g.size,
    ;
    assert forall|k: int| 0 <= k < g.n() implies #[trigger] positions_of(s)[k] == g.position_of[k] by {
        assert(0 <= g.position_of[k] < g.n());
    }
    assert(positions_of(s) =~= g.position_of);
    assert forall|k: int| 1 <= k < g.n() implies Orientation::byte_is_valid(#[trigger] s[k].1)
        && Orientation::of_byte(s[k].1) == g.orientation_of[k] by {
        assert(g.orientation_of[k].wf());
        lemma_byte_round_trip(g.orientation_of[k]);
    }
    assert(orientations_of(s) =~= g.orientation_of);
}

/// Decoding the string of a well-formed board gives back that board: any
/// well-formed board of the same size whose tables are the ones that decoding
/// reads is the board itself.
pub proof fn lemma_decode_encode(g: GridView, h: GridView)
    requires
        g.wf(),
        h.wf(),
        h.size == g.size,
        h.position_of == positions_of(encoded(g)),
        h.orientation_of == orientations_of(encoded(g)),
    ensures
        h == g,
{
    lemma_encoded_decodes(g);
    lemma_view_determined(h, g);
}

/// Keys are a function of the string alone: equal strings give equal keys.
pub proof fn lemma_key_deterministic(a: BoardString, b: BoardString)
    requires
        a@ == b@,
    ensures
        key_of_hash((default_hash_of(a@) % 0x10_0000_0000) as nat) == key_of_hash(
            (default_hash_of(b@) % 0x10_0000_0000) as nat,
        ),
{
}

/// Pairing the bytes of a string gives the string back.
pub proof fn lemma_arr_round_trip(s: Seq<(u8, u8)>)
    ensures
        pairs_of(bytes_of(s)) == s,
{
    let b = bytes_of(s);
    assert forall|i: int| 0 <= i < s.len() implies #[trigger] pairs_of(b)[i] == s[i] by {
        assert((2 * i) % 2 == 0);
        assert((2 * i + 1) % 2 == 1);
        assert((2 * i) / 2 == i);
        assert((2 * i + 1) / 2 == i);
    }
    assert(pairs_of(b) =~= s);
}

} // verus!
