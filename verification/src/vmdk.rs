//! Disk image formats and the guards on VMDK descriptors.
use std::hash::{DefaultHasher, Hash, Hasher};

use vstd::prelude::*;
use vstd::std_specs::hash::DefaultHasherAdditionalSpecFns;
use vstd::string::*;
use vstd::utf8::{encode_utf8, valid_utf8};

verus! {

/// Fixed VHD images: the disk data and a footer of 512 bytes.
#[derive(Debug, Clone, Copy)]
pub struct Vhd;

impl Vhd {
    /// Name of the format.
    pub const NAME: &'static str = "vhd";

    /// The bytes behind the data, which the capacity cannot cover.
    pub const CAPACITY_FILE_TAIL: u64 = 512;

    /// Reads are never short.
    pub const NO_SHORT_READS: bool = true;
}

/// Dynamic VHDX images.
#[derive(Debug, Clone, Copy)]
pub struct Vhdx;

impl Vhdx {
    /// Name of the format.
    pub const NAME: &'static str = "vhdx";

    /// Largest image: 16 MiB.
    pub const MAX_IMAGE_LEN: usize = 0x100_0000;

    /// Reads are never short.
    pub const NO_SHORT_READS: bool = true;
}

/// Flat VMDK images: a text descriptor that names its extents.
#[derive(Debug, Clone, Copy)]
pub struct Vmdk;

/// The descriptor names an extent outside the scratch directory.
#[derive(Debug, Clone, Copy, PartialEq, Eq, Structural)]
pub struct UnsupportedFeature;

/// A descriptor that was prepared for its disk to be opened.
#[derive(Debug)]
pub struct PreparedDescriptor {
    /// The text to put in its place, where it differs
    pub expanded: Option<String>,
    /// Whether its disk can be opened
    pub result: Result<(), UnsupportedFeature>,
}

// ─── Characters and lines ────────────────────────────────────────────────────

/// The Unicode white space characters.
pub open spec fn is_space(c: char) -> bool {
    let u = c as u32;
    ||| 0x09 <= u <= 0x0D
    ||| u == 0x20
    ||| u == 0x85
    ||| u == 0xA0
    ||| u == 0x1680
    ||| 0x2000 <= u <= 0x200A
    ||| u == 0x2028
    ||| u == 0x2029
    ||| u == 0x202F
    ||| u == 0x205F
    ||| u == 0x3000
}

/// Whether a character is white space.
fn space(c: char) -> (b: bool)
    ensures
        b == is_space(c),
{
    let u: u32 = c as u32;
    (0x09 <= u && u <= 0x0D) || u == 0x20 || u == 0x85 || u == 0xA0 || u == 0x1680 || (0x2000 <= u
        && u <= 0x200A) || u == 0x2028 || u == 0x2029 || u == 0x202F || u == 0x205F || u == 0x3000
}

/// The characters of a text.
fn chars_of(s: &str) -> (v: Vec<char>)
    ensures
        v@ == s@,
{
    let n: usize = s.unicode_len();
    let mut v: Vec<char> = Vec::new();
    let mut i: usize = 0;
    while i < n
        invariant
            i <= n == s@.len(),
            v@ == s@.take(i as int),
        decreases n - i,
    {
        v.push(s.get_char(i));
        i += 1;
        assert(v@ =~= s@.take(i as int));
    }
    assert(s@.take(n as int) =~= s@);
    v
}

/// The pieces of a text between occurrences of a separator.
pub open spec fn pieces(s: Seq<char>, sep: char) -> Seq<Seq<char>>
    decreases s.len(),
{
    if s.len() == 0 {
        seq![Seq::empty()]
    } else {
        let front = pieces(s.drop_last(), sep);
        if s.last() == sep {
            front.push(Seq::empty())
        } else {
            front.update(front.len() - 1, front.last().push(s.last()))
        }
    }
}

/// The words of a text: its longest runs of characters that are not white
/// space.
pub open spec fn words(s: Seq<char>) -> Seq<Seq<char>>
    decreases s.len(),
{
    if s.len() == 0 {
        Seq::empty()
    } else {
        let front = words(s.drop_last());
        if is_space(s.last()) {
            front
        } else if s.len() == 1 || is_space(s[s.len() - 2]) {
            front.push(seq![s.last()])
        } else {
            front.update(front.len() - 1, front.last().push(s.last()))
        }
    }
}

/// A text without the leading and trailing occurrences of a quotation mark.
pub open spec fn unquoted(s: Seq<char>) -> Seq<char>
    decreases s.len(),
{
    if s.len() > 0 && s[0] == '"' {
        unquoted(s.skip(1))
    } else if s.len() > 0 && s.last() == '"' {
        unquoted(s.drop_last())
    } else {
        s
    }
}

/// A text without trailing white space.
pub open spec fn trimmed_end(s: Seq<char>) -> Seq<char>
    decreases s.len(),
{
    if s.len() > 0 && is_space(s.last()) {
        trimmed_end(s.drop_last())
    } else {
        s
    }
}

/// The views of texts.
pub open spec fn text_views(v: Seq<Vec<char>>) -> Seq<Seq<char>> {
    v.map_values(|t: Vec<char>| t@)
}

/// Splits a text at a separator.
fn split_pieces(s: &[char], sep: char) -> (v: Vec<Vec<char>>)
    ensures
        text_views(v@) == pieces(s@, sep),
        v@.len() > 0,
{
    let mut v: Vec<Vec<char>> = Vec::new();
    v.push(Vec::new());
    assert(text_views(v@) =~= seq![Seq::<char>::empty()]);
    let mut i: usize = 0;
    assert(s@.take(0) =~= Seq::<char>::empty());
    while i < s.len()
        invariant
            i <= s@.len(),
            v@.len() > 0,
            text_views(v@) == pieces(s@.take(i as int), sep),
        decreases s@.len() - i,
    {
        let c: char = s[i];
        let ghost part = s@.take(i + 1);
        let ghost before = text_views(v@);
        assert(part.drop_last() =~= s@.take(i as int));
        assert(part.last() == c);
        if c == sep {
            v.push(Vec::new());
            assert(text_views(v@) =~= before.push(Seq::empty()));
        } else {
            let last: usize = v.len() - 1;
            let ghost old_piece = v@[last as int]@;
            v[last].push(c);
            assert(text_views(v@) =~= before.update(last as int, old_piece.push(c)));
            assert(before.last() == old_piece);
        }
        i += 1;
    }
    assert(s@.take(i as int) =~= s@);
    v
}

/// Splits a text into words.
fn split_words(s: &[char]) -> (v: Vec<Vec<char>>)
    ensures
        text_views(v@) == words(s@),
{
    let mut v: Vec<Vec<char>> = Vec::new();
    assert(text_views(v@) =~= Seq::<Seq<char>>::empty());
    let mut i: usize = 0;
    let mut in_word: bool = false;
    assert(s@.take(0) =~= Seq::<char>::empty());
    while i < s.len()
        invariant
            i <= s@.len(),
            text_views(v@) == words(s@.take(i as int)),
            in_word == (i > 0 && !is_space(s@[i - 1])),
            in_word ==> v@.len() > 0,
        decreases s@.len() - i,
    {
        let c: char = s[i];
        let ghost part = s@.take(i + 1);
        let ghost before = text_views(v@);
        assert(part.drop_last() =~= s@.take(i as int));
        assert(part.last() == c);
        if space(c) {
            in_word = false;
        } else if !in_word {
            let mut w: Vec<char> = Vec::new();
            w.push(c);
            assert(w@ =~= seq![c]);
            v.push(w);
            assert(text_views(v@) =~= before.push(seq![c]));
            in_word = true;
        } else {
            let last: usize = v.len() - 1;
            let ghost old_word = v@[last as int]@;
            v[last].push(c);
            assert(text_views(v@) =~= before.update(last as int, old_word.push(c)));
            assert(before.last() == old_word);
        }
        i += 1;
    }
    assert(s@.take(i as int) =~= s@);
    v
}

/// A copy of the characters of a text from `from` up to `to`.
fn copy_chars(s: &[char], from: usize, to: usize) -> (v: Vec<char>)
    requires
        from <= to <= s@.len(),
    ensures
        v@ == s@.subrange(from as int, to as int),
{
    let mut v: Vec<char> = Vec::new();
    let mut i: usize = from;
    while i < to
        invariant
            from <= i <= to <= s@.len(),
            v@ == s@.subrange(from as int, i as int),
        decreases to - i,
    {
        v.push(s[i]);
        i += 1;
    }
    v
}

/// Removes quotation marks at both ends of a text.
fn unquote(s: &[char]) -> (v: Vec<char>)
    ensures
        v@ == unquoted(s@),
{
    let mut from: usize = 0;
    let mut to: usize = s.len();
    assert(s@.subrange(0, to as int) =~= s@);
    while from < to && s[from] == '"'
        invariant
            from <= to == s@.len(),
            unquoted(s@.subrange(from as int, to as int)) == unquoted(s@),
        decreases to - from,
    {
        assert(s@.subrange(from as int, to as int).skip(1) =~= s@.subrange(from + 1, to as int));
        from += 1;
    }
    while from < to && s[to - 1] == '"'
        invariant
            from <= to <= s@.len(),
            from < to ==> s@[from as int] != '"',
            unquoted(s@.subrange(from as int, to as int)) == unquoted(s@),
        decreases to - from,
    {
        assert(s@.subrange(from as int, to as int).drop_last() =~= s@.subrange(
            from as int,
            to - 1,
        ));
        to -= 1;
    }
    copy_chars(s, from, to)
}

/// Whether two texts are the same.
fn same_chars(a: &[char], b: &[char]) -> (same: bool)
    ensures
        same == (a@ == b@),
{
    if a.len() != b.len() {
        return false;
    }
    let mut i: usize = 0;
    while i < a.len()
        invariant
            i <= a@.len(),
            a@.len() == b@.len(),
            forall|k: int| 0 <= k < i ==> a@[k] == b@[k],
        decreases a@.len() - i,
    {
        if a[i] != b[i] {
            return false;
        }
        i += 1;
    }
    assert(a@ =~= b@);
    true
}

// ─── Paths ───────────────────────────────────────────────────────────────────

/// Whether a path is absolute.
pub open spec fn is_absolute(path: Seq<char>) -> bool {
    path.len() > 0 && path[0] == '/'
}

/// Whether a piece of a path is a component: not empty, and not the current
/// directory.
pub open spec fn is_component(piece: Seq<char>) -> bool {
    piece.len() > 0 && piece != seq!['.']
}

/// The components of a path below its root: what is between its slashes,
/// without the current directory.
pub open spec fn components(path: Seq<char>) -> Seq<Seq<char>> {
    pieces(path, '/').filter(|p: Seq<char>| is_component(p))
}

/// The parent directory.
pub open spec fn parent_dir() -> Seq<char> {
    seq!['.', '.']
}

/// Whether a path starts at the current directory by name.
pub open spec fn starts_at_current(path: Seq<char>) -> bool {
    pieces(path, '/')[0] == seq!['.']
}

/// An extent's name is one outside the directory: a relative name must have
/// components, all of them normal; an absolute one must lead into the
/// directory by normal components.
pub open spec fn name_escapes(name: Seq<char>, dir: Seq<char>) -> bool {
    let c = components(name);
    let d = components(dir);
    if is_absolute(name) {
        ||| !is_absolute(dir)
        ||| c.len() <= d.len()
        ||| c.take(d.len() as int) != d
        ||| c.skip(d.len() as int).contains(parent_dir())
    } else {
        c.len() == 0 || starts_at_current(name) || c.contains(parent_dir())
    }
}

/// A line of a descriptor names an extent outside the directory: the fourth of
/// four or five words, without its quotation marks.
pub open spec fn line_escapes(line: Seq<char>, dir: Seq<char>) -> bool {
    let w = words(line);
    (w.len() == 4 || w.len() == 5) && name_escapes(unquoted(w[3]), dir)
}

/// A descriptor names an extent outside the directory.
pub open spec fn descriptor_escapes(text: Seq<char>, dir: Seq<char>) -> bool {
    exists|i: int|
        0 <= i < pieces(text, '\n').len() && line_escapes(#[trigger] pieces(text, '\n')[i], dir)
}

/// Where a path leads from a directory, by its components: the parent
/// directory goes back by one.
pub open spec fn resolved(base: Seq<Seq<char>>, c: Seq<Seq<char>>) -> Seq<Seq<char>>
    decreases c.len(),
{
    if c.len() == 0 {
        base
    } else {
        let front = resolved(base, c.drop_last());
        if c.last() == parent_dir() {
            if front.len() > 0 {
                front.drop_last()
            } else {
                front
            }
        } else {
            front.push(c.last())
        }
    }
}

/// Without a parent directory among them, components lead further down.
proof fn normal_components_lead_down(base: Seq<Seq<char>>, c: Seq<Seq<char>>)
    requires
        !c.contains(parent_dir()),
    ensures
        resolved(base, c) == base + c,
    decreases c.len(),
{
    if c.len() > 0 {
        let front = c.drop_last();
        assert(!front.contains(parent_dir())) by {
            if front.contains(parent_dir()) {
                let i = choose|i: int| 0 <= i < front.len() && front[i] == parent_dir();
                assert(c[i] == parent_dir());
            }
        }
        assert(c.last() != parent_dir()) by {
            if c.last() == parent_dir() {
                assert(c[c.len() - 1] == parent_dir());
            }
        }
        normal_components_lead_down(base, front);
        assert(resolved(base, c) =~= base + c);
    } else {
        assert(base + c =~= base);
    }
}

/// An extent whose name is accepted lies in the directory: from the directory,
/// or from the root for an absolute name, its components lead to a place below
/// the directory, where the directory itself has only normal components.
pub proof fn accepted_names_stay_inside(name: Seq<char>, dir: Seq<char>)
    requires
        !name_escapes(name, dir),
        !components(dir).contains(parent_dir()),
    ensures
        ({
            let d = components(dir);
            let place = resolved(
                if is_absolute(name) {
                    Seq::empty()
                } else {
                    d
                },
                components(name),
            );
            &&& place.len() > d.len()
            &&& place.take(d.len() as int) == d
        }),
{
    let c = components(name);
    let d = components(dir);
    if is_absolute(name) {
        assert(!c.contains(parent_dir())) by {
            if c.contains(parent_dir()) {
                let i = choose|i: int| 0 <= i < c.len() && c[i] == parent_dir();
                if i < d.len() {
                    assert(c.take(d.len() as int)[i] == parent_dir());
                    assert(d[i] == parent_dir());
                } else {
                    assert(c.skip(d.len() as int)[i - d.len()] == parent_dir());
                }
            }
        }
        normal_components_lead_down(Seq::empty(), c);
        assert(Seq::<Seq<char>>::empty() + c =~= c);
    } else {
        normal_components_lead_down(d, c);
        assert((d + c).take(d.len() as int) =~= d);
    }
}

/// Splits a path into components.
fn path_components(path: &[char]) -> (v: Vec<Vec<char>>)
    ensures
        text_views(v@) == components(path@),
{
    let parts: Vec<Vec<char>> = split_pieces(path, '/');
    let ghost all = text_views(parts@);
    let ghost pred = |p: Seq<char>| is_component(p);
    let mut v: Vec<Vec<char>> = Vec::new();
    let mut i: usize = 0;
    proof {
        assert(all.take(0).filter(pred) =~= Seq::<Seq<char>>::empty()) by {
            reveal(Seq::filter);
        }
        assert(text_views(v@) =~= Seq::<Seq<char>>::empty());
    }
    while i < parts.len()
        invariant
            i <= parts@.len(),
            all == text_views(parts@),
            pred == (|p: Seq<char>| is_component(p)),
            text_views(v@) == all.take(i as int).filter(pred),
        decreases parts@.len() - i,
    {
        let ghost before = text_views(v@);
        let piece: &Vec<char> = &parts[i];
        let keep: bool = piece.len() > 0 && !(piece.len() == 1 && piece[0] == '.');
        proof {
            assert(all.take(i + 1).drop_last() =~= all.take(i as int));
            assert(all.take(i + 1).last() == piece@);
            if piece@.len() == 1 && piece@[0] == '.' {
                assert(piece@ =~= seq!['.']);
            }
            assert(keep == is_component(piece@));
            reveal(Seq::filter);
        }
        if keep {
            let copy: Vec<char> = copy_chars(piece.as_slice(), 0, piece.len());
            assert(copy@ =~= piece@);
            v.push(copy);
            assert(text_views(v@) =~= before.push(piece@));
        }
        i += 1;
    }
    assert(all.take(i as int) =~= all);
    v
}

/// Whether one of the texts from `from` on is the parent directory.
fn has_parent_dir(v: &Vec<Vec<char>>, from: usize) -> (b: bool)
    requires
        from <= v@.len(),
    ensures
        b == text_views(v@).skip(from as int).contains(parent_dir()),
{
    let ghost rest = text_views(v@).skip(from as int);
    let mut i: usize = from;
    while i < v.len()
        invariant
            from <= i <= v@.len(),
            rest == text_views(v@).skip(from as int),
            forall|k: int| from <= k < i ==> #[trigger] v@[k]@ != parent_dir(),
        decreases v@.len() - i,
    {
        if v[i].len() == 2 && v[i][0] == '.' && v[i][1] == '.' {
            assert(v@[i as int]@ =~= parent_dir());
            assert(rest[i - from] == parent_dir());
            return true;
        }
        i += 1;
    }
    assert forall|k: int| 0 <= k < rest.len() implies rest[k] != parent_dir() by {
        assert(rest[k] == v@[k + from]@);
    }
    false
}

/// Whether an extent's name is one outside the directory.
fn extent_escapes(name: &[char], dir: &[char]) -> (b: bool)
    ensures
        b == name_escapes(name@, dir@),
{
    let c: Vec<Vec<char>> = path_components(name);
    let d: Vec<Vec<char>> = path_components(dir);
    if name.len() > 0 && name[0] == '/' {
        if !(dir.len() > 0 && dir[0] == '/') || c.len() <= d.len() {
            return true;
        }
        let n: usize = d.len();
        let mut i: usize = 0;
        while i < n
            invariant
                i <= n == d@.len(),
                n < c@.len(),
                text_views(c@) == components(name@),
                text_views(d@) == components(dir@),
                is_absolute(name@) && is_absolute(dir@),
                forall|k: int| 0 <= k < i ==> #[trigger] text_views(c@)[k] == text_views(d@)[k],
            decreases n - i,
        {
            if !same_chars(c[i].as_slice(), d[i].as_slice()) {
                assert(components(name@).take(n as int)[i as int] != components(dir@)[i as int]);
                return true;
            }
            assert(text_views(c@)[i as int] == text_views(d@)[i as int]);
            i += 1;
        }
        assert(components(name@).take(n as int) =~= components(dir@));
        has_parent_dir(&c, n)
    } else {
        let first: Vec<Vec<char>> = split_pieces(name, '/');
        if first[0].len() == 1 && first[0][0] == '.' {
            assert(first@[0]@ =~= seq!['.']);
            assert(text_views(first@)[0] == seq!['.']);
            return true;
        }
        assert(text_views(first@)[0] == first@[0]@);
        assert(components(name@).skip(0) =~= components(name@));
        c.len() == 0 || has_parent_dir(&c, 0)
    }
}

// ─── The scratch token ───────────────────────────────────────────────────────

/// The token by which a descriptor names the scratch directory.
pub open spec fn scratch_token() -> Seq<char> {
    "/@fuzz-scratch@"@
}

/// A text is found at an index.
pub open spec fn found_at<T>(s: Seq<T>, t: Seq<T>, i: int) -> bool {
    0 <= i && i + t.len() <= s.len() && s.subrange(i, i + t.len()) == t
}

/// A text occurs in another.
pub open spec fn occurs<T>(s: Seq<T>, t: Seq<T>) -> bool {
    exists|i: int| #[trigger] found_at(s, t, i)
}

/// A text with the occurrences of a token, which is not empty, replaced from
/// the left.
pub open spec fn replaced(s: Seq<char>, token: Seq<char>, with: Seq<char>) -> Seq<char>
    decreases s.len(),
{
    if token.len() == 0 || s.len() < token.len() {
        s
    } else if s.take(token.len() as int) == token {
        with + replaced(s.skip(token.len() as int), token, with)
    } else {
        seq![s[0]] + replaced(s.skip(1), token, with)
    }
}

/// A text in which the token does not occur stays as it is when the token is
/// replaced.
pub proof fn texts_without_token_stay(s: Seq<char>, token: Seq<char>, with: Seq<char>)
    requires
        !occurs(s, token),
    ensures
        replaced(s, token, with) == s,
    decreases s.len(),
{
    if token.len() > 0 && s.len() >= token.len() {
        assert(s.subrange(0, token.len() as int) =~= s.take(token.len() as int));
        assert(!found_at(s, token, 0));
        let rest = s.skip(1);
        assert(!occurs(rest, token)) by {
            if occurs(rest, token) {
                let i = choose|i: int| #[trigger] found_at(rest, token, i);
                assert(s.subrange(i + 1, i + 1 + token.len()) =~= rest.subrange(
                    i,
                    i + token.len(),
                ));
                assert(found_at(s, token, i + 1));
            }
        }
        texts_without_token_stay(rest, token, with);
        assert(seq![s[0]] + rest =~= s);
    }
}

// ─── Hashing ─────────────────────────────────────────────────────────────────

/// The writes by which a hasher is fed with bytes.
pub uninterp spec fn hash_writes(bytes: Seq<u8>) -> Seq<Seq<u8>>;

/// Feeds bytes to a hasher. Calls `std::hash::Hash::hash` of a slice. Claimed:
/// it adds writes to the hasher that the bytes alone determine. Which ones is
/// up to the standard library and the target that the program is built for.
#[verifier::external_body]
fn feed_bytes(hasher: &mut DefaultHasher, bytes: &[u8])
    ensures
        final(hasher)@ == old(hasher)@ + hash_writes(bytes@),
{
    bytes.hash(hasher);
}

/// The hash of bytes, by a new hasher that is fed with them.
pub open spec fn default_hash(bytes: Seq<u8>) -> u64 {
    DefaultHasher::spec_finish(hash_writes(bytes))
}

/// The text that bytes are the UTF-8 form of. Calls `std::str::from_utf8`.
/// Claimed: it succeeds exactly on valid UTF-8, with the text whose encoding
/// the bytes are.
#[verifier::external_body]
fn utf8_text(bytes: &[u8]) -> (r: Option<String>)
    ensures
        r is Some <==> valid_utf8(bytes@),
        r matches Some(s) ==> encode_utf8(s@) == bytes@,
{
    match std::str::from_utf8(bytes) {
        Ok(s) => Some(s.to_owned()),
        Err(_) => None,
    }
}

/// The text that bytes stand for, with what is not valid UTF-8 replaced.
pub uninterp spec fn lossy_chars(bytes: Seq<u8>) -> Seq<char>;

/// The text that bytes stand for. Calls `String::from_utf8_lossy`. Claimed: the
/// text is a function of the bytes, and of valid UTF-8 it is the text whose
/// encoding the bytes are.
#[verifier::external_body]
fn lossy_text(bytes: &[u8]) -> (s: String)
    ensures
        s@ == lossy_chars(bytes@),
        valid_utf8(bytes@) ==> encode_utf8(s@) == bytes@,
{
    String::from_utf8_lossy(bytes).into_owned()
}

/// The bytes of the scratch token.
pub open spec fn scratch_token_bytes() -> Seq<u8> {
    Seq::new(scratch_token().len(), |i: int| scratch_token()[i] as u8)
}

/// Whether the bytes of a text are found at an index.
fn bytes_found_at(bytes: &[u8], token: &[u8], at: usize) -> (b: bool)
    requires
        at + token@.len() <= bytes@.len(),
    ensures
        b == found_at(bytes@, token@, at as int),
{
    let _len: usize = bytes.len();
    let part: &[u8] = vstd::slice::slice_subrange(bytes, at, at + token.len());
    crate::bytes::bytes_equal(part, token)
}

/// Whether a text is found at an index of another.
fn chars_found_at(s: &[char], token: &[char], at: usize) -> (b: bool)
    requires
        at + token@.len() <= s@.len(),
    ensures
        b == found_at(s@, token@, at as int),
{
    let _len: usize = s.len();
    let part: &[char] = vstd::slice::slice_subrange(s, at, at + token.len());
    same_chars(part, token)
}

impl Vmdk {
    /// Name of the format.
    pub const NAME: &'static str = "vmdk";

    /// Largest descriptor: 64 KiB.
    pub const MAX_IMAGE_LEN: usize = 0x1_0000;

    /// Extents are found beside the descriptor.
    pub const NEEDS_PATH: bool = true;

    /// Size of each extent: 1 MiB.
    pub const EXTENT_LEN: u64 = 0x10_0000;

    /// Whether the bytes are a descriptor: UTF-8 text whose first line, but
    /// for trailing white space, is the descriptor header.
    pub fn magic_ok(bytes: &[u8]) -> (ok: bool)
        ensures
            ok <==> exists|text: Seq<char>|
                #[trigger] encode_utf8(text) == bytes@ && valid_utf8(bytes@) && trimmed_end(
                    pieces(text, '\n')[0],
                ) == "# Disk DescriptorFile"@,
    {
        let text: String = match utf8_text(bytes) {
            Some(t) => t,
            None => {
                return false;
            },
        };
        let chars: Vec<char> = chars_of(text.as_str());
        let lines: Vec<Vec<char>> = split_pieces(chars.as_slice(), '\n');
        let line: &Vec<char> = &lines[0];
        assert(text_views(lines@)[0] == line@);
        let mut to: usize = line.len();
        assert(line@.take(to as int) =~= line@);
        while to > 0 && space(line[to - 1])
            invariant
                to <= line@.len(),
                trimmed_end(line@.take(to as int)) == trimmed_end(line@),
            decreases to,
        {
            assert(line@.take(to as int).drop_last() =~= line@.take(to - 1));
            to -= 1;
        }
        let trimmed: Vec<char> = copy_chars(line.as_slice(), 0, to);
        let header: Vec<char> = chars_of("# Disk DescriptorFile");
        let ok: bool = same_chars(trimmed.as_slice(), header.as_slice());
        proof {
            assert forall|t: Seq<char>| #[trigger] encode_utf8(t) == bytes@ implies t == text@ by {
                utf8_texts_differ(t, text@);
            }
        }
        ok
    }

    /// Whether the input has its extents resolved by the fallback walk: never
    /// where the scratch token occurs, and else by the hash of the input, for
    /// one input in two.
    pub fn force_walk(bytes: &[u8]) -> (walk: bool)
        ensures
            walk == Self::walk_choice(bytes@, default_hash(bytes@)),
    {
        let mut hasher: DefaultHasher = DefaultHasher::new();
        feed_bytes(&mut hasher, bytes);
        assert(hasher@ =~= hash_writes(bytes@));
        Self::choose_walk(bytes, hasher.finish())
    }

    /// The choice of the fallback walk for an input with the given hash.
    pub open spec fn walk_choice(bytes: Seq<u8>, hash: u64) -> bool {
        !occurs(bytes, scratch_token_bytes()) && hash % 2 == 1
    }

    /// Chooses the fallback walk for an input with the given hash.
    pub fn choose_walk(bytes: &[u8], hash: u64) -> (walk: bool)
        ensures
            walk == Self::walk_choice(bytes@, hash),
    {
        proof {
            reveal_strlit("/@fuzz-scratch@");
        }
        let token: &[u8] = "/@fuzz-scratch@".as_bytes();
        assert(token@ =~= scratch_token_bytes()) by {
            is_ascii_spec_bytes("/@fuzz-scratch@");
        }
        let n: usize = bytes.len();
        let m: usize = token.len();
        let mut i: usize = 0;
        while i < n && m <= n - i
            invariant
                i <= n == bytes@.len(),
                m == token@.len(),
                token@ == scratch_token_bytes(),
                m == 15,
                forall|k: int| 0 <= k < i ==> !#[trigger] found_at(bytes@, token@, k),
            decreases n - i,
        {
            if bytes_found_at(bytes, token, i) {
                assert(occurs(bytes@, scratch_token_bytes()));
                return false;
            }
            i += 1;
        }
        assert(!occurs(bytes@, scratch_token_bytes())) by {
            assert forall|k: int| !#[trigger] found_at(bytes@, token@, k) by {}
        }
        hash % 2 != 0
    }

    /// Expands the scratch token in a descriptor into the scratch directory.
    /// Returns `None` where there is nothing to expand.
    pub fn expand_scratch_token(descriptor: &str, dir: &str) -> (r: Option<String>)
        ensures
            r is Some <==> occurs(descriptor@, scratch_token()),
            r matches Some(s) ==> s@ == replaced(descriptor@, scratch_token(), dir@),
    {
        proof {
            reveal_strlit("/@fuzz-scratch@");
        }
        let s: Vec<char> = chars_of(descriptor);
        let token: Vec<char> = chars_of("/@fuzz-scratch@");
        let n: usize = s.len();
        let m: usize = token.len();
        let mut out: String = String::new();
        let mut found: bool = false;
        let mut i: usize = 0;
        assert(s@.skip(0) =~= s@);
        assert(out@ + replaced(s@.skip(0), token@, dir@) =~= replaced(s@, token@, dir@));
        while i < n && m <= n - i
            invariant
                i <= n == s@.len(),
                m == token@.len() == 15,
                s@ == descriptor@,
                token@ == scratch_token(),
                found ==> occurs(s@, token@),
                !found ==> forall|k: int| 0 <= k < i ==> !#[trigger] found_at(s@, token@, k),
                out@ + replaced(s@.skip(i as int), token@, dir@) == replaced(s@, token@, dir@),
            decreases n - i,
        {
            let ghost rest = s@.skip(i as int);
            let ghost before = out@;
            assert(rest.take(m as int) =~= s@.subrange(i as int, i + m));
            if chars_found_at(s.as_slice(), token.as_slice(), i) {
                found = true;
                out.append(dir);
                assert(rest.skip(m as int) =~= s@.skip(i + m));
                assert(out@ + replaced(s@.skip(i + m), token@, dir@) =~= before + replaced(
                    rest,
                    token@,
                    dir@,
                ));
                i = i + m;
            } else {
                out.append(descriptor.substring_char(i, i + 1));
                assert(descriptor@.subrange(i as int, i + 1) =~= seq![rest[0]]);
                assert(rest.skip(1) =~= s@.skip(i + 1));
                assert(out@ + replaced(s@.skip(i + 1), token@, dir@) =~= before + replaced(
                    rest,
                    token@,
                    dir@,
                ));
                i = i + 1;
            }
        }
        if !found {
            assert(!occurs(s@, token@)) by {
                assert forall|k: int| !#[trigger] found_at(s@, token@, k) by {}
            }
            return None;
        }
        out.append(descriptor.substring_char(i, n));
        assert(descriptor@.subrange(i as int, n as int) =~= s@.skip(i as int));
        Some(out)
    }

    /// Whether a descriptor names an extent outside the scratch directory.
    pub fn names_escaping_extent(descriptor: &str, dir: &str) -> (b: bool)
        ensures
            b == descriptor_escapes(descriptor@, dir@),
    {
        let text: Vec<char> = chars_of(descriptor);
        let dir_chars: Vec<char> = chars_of(dir);
        let lines: Vec<Vec<char>> = split_pieces(text.as_slice(), '\n');
        let ghost all = pieces(descriptor@, '\n');
        let mut i: usize = 0;
        while i < lines.len()
            invariant
                i <= lines@.len(),
                all == pieces(descriptor@, '\n'),
                text_views(lines@) == all,
                dir_chars@ == dir@,
                forall|k: int| 0 <= k < i ==> !line_escapes(#[trigger] all[k], dir@),
            decreases lines@.len() - i,
        {
            let parts: Vec<Vec<char>> = split_words(lines[i].as_slice());
            assert(all[i as int] == lines@[i as int]@);
            if parts.len() == 4 || parts.len() == 5 {
                assert(text_views(parts@)[3] == parts@[3]@);
                let name: Vec<char> = unquote(parts[3].as_slice());
                if extent_escapes(name.as_slice(), dir_chars.as_slice()) {
                    assert(line_escapes(all[i as int], dir@));
                    return true;
                }
            }
            i += 1;
        }
        false
    }

    /// What becomes of the text of a descriptor: the directory is put in place
    /// of the scratch token, where the token occurs, and the descriptor is
    /// refused exactly where it then names an extent outside the directory.
    pub open spec fn is_prepared(text: Seq<char>, dir: Seq<char>, p: PreparedDescriptor) -> bool {
        let expanded = replaced(text, scratch_token(), dir);
        &&& p.expanded is Some <==> occurs(text, scratch_token())
        &&& p.expanded matches Some(s) ==> s@ == expanded
        &&& p.result is Err <==> descriptor_escapes(expanded, dir)
    }

    /// Prepares a descriptor, given by its bytes, for its disk to be opened.
    pub fn prepare_descriptor(bytes: &[u8], dir: &str) -> (p: PreparedDescriptor)
        ensures
            Self::is_prepared(lossy_chars(bytes@), dir@, p),
    {
        let text: String = lossy_text(bytes);
        Vmdk::prepare_text(text.as_str(), dir)
    }

    /// Prepares the text of a descriptor for its disk to be opened.
    pub fn prepare_text(descriptor: &str, dir: &str) -> (p: PreparedDescriptor)
        ensures
            Self::is_prepared(descriptor@, dir@, p),
    {
        let expanded: Option<String> = Vmdk::expand_scratch_token(descriptor, dir);
        let escapes: bool = match &expanded {
            Some(text) => Vmdk::names_escaping_extent(text.as_str(), dir),
            None => {
                proof {
                    texts_without_token_stay(descriptor@, scratch_token(), dir@);
                }
                Vmdk::names_escaping_extent(descriptor, dir)
            },
        };
        PreparedDescriptor {
            expanded,
            result: if escapes {
                Err(UnsupportedFeature)
            } else {
                Ok(())
            },
        }
    }

    /// The names of the extents that the scratch directory holds.
    pub fn extents() -> (names: [&'static str; 6])
        ensures
            names@[0]@ == "image-flat.vmdk"@,
            names@[1]@ == "image-f001.vmdk"@,
            names@[2]@ == "image-f002.vmdk"@,
            names@[3]@ == "flat-flat.vmdk"@,
            names@[4]@ == "two-f001.vmdk"@,
            names@[5]@ == "two-f002.vmdk"@,
    {
        [
            "image-flat.vmdk",
            "image-f001.vmdk",
            "image-f002.vmdk",
            "flat-flat.vmdk",
            "two-f001.vmdk",
            "two-f002.vmdk",
        ]
    }
}

/// Texts with the same encoding are the same.
proof fn utf8_texts_differ(a: Seq<char>, b: Seq<char>)
    requires
        encode_utf8(a) == encode_utf8(b),
    ensures
        a == b,
{
    vstd::utf8::encode_utf8_decode_utf8(a);
    vstd::utf8::encode_utf8_decode_utf8(b);
}

// ─── Laws ────────────────────────────────────────────────────────────────────

/// White space, by its code points: the five controls from 0x09 on, the space, 0x85
/// and 0xA0, 0x1680, the eleven from 0x2000 on, 0x2028, 0x2029, 0x202F, 0x205F and
/// 0x3000.
pub proof fn white_space_has_its_code_points(c: char)
    ensures
        is_space(c) <==> {
            let u = c as u32;
            ||| u == 9 || u == 10 || u == 11 || u == 12 || u == 13 || u == 32 || u == 0x85
            ||| u == 0xA0 || u == 0x1680 || 0x2000 <= u < 0x200B || u == 0x2028 || u == 0x2029
            ||| u == 0x202F || u == 0x205F || u == 0x3000
        },
{
}

/// A text without the separator is its only piece, and the pieces of two texts with
/// the separator between them are those of the first and then those of the second.
pub proof fn pieces_are_between_separators(s: Seq<char>, t: Seq<char>, sep: char)
    ensures
        !s.contains(sep) ==> pieces(s, sep) == seq![s],
        pieces(s.push(sep) + t, sep) == pieces(s, sep) + pieces(t, sep),
        pieces(s, sep).len() > 0,
    decreases s.len() + t.len(),
{
    if s.len() > 0 {
        pieces_are_between_separators(s.drop_last(), Seq::empty(), sep);
        if !s.contains(sep) {
            let front = s.drop_last();
            assert(!front.contains(sep)) by {
                if front.contains(sep) {
                    let i = choose|i: int| 0 <= i < front.len() && front[i] == sep;
                    assert(s[i] == sep);
                }
            }
            assert(s[s.len() - 1] != sep);
            assert(front.push(s.last()) =~= s);
            assert(pieces(s, sep) =~= seq![s]);
        }
    } else {
        assert(s =~= Seq::empty());
        assert(pieces(s, sep) =~= seq![s]);
    }
    let x = s.push(sep) + t;
    if t.len() == 0 {
        assert(x.drop_last() =~= s);
        assert(pieces(t, sep) =~= seq![Seq::<char>::empty()]);
        assert(pieces(x, sep) =~= pieces(s, sep) + pieces(t, sep));
    } else {
        let front = t.drop_last();
        pieces_are_between_separators(s, front, sep);
        pieces_are_not_none(front, sep);
        assert(x.drop_last() =~= s.push(sep) + front);
        assert(x.last() == t.last());
        assert(pieces(x, sep) =~= pieces(s, sep) + pieces(t, sep));
    }
}

/// There is always a piece.
proof fn pieces_are_not_none(s: Seq<char>, sep: char)
    ensures
        pieces(s, sep).len() > 0,
    decreases s.len(),
{
    if s.len() > 0 {
        pieces_are_not_none(s.drop_last(), sep);
    }
}

/// A text without white space is its only word, unless it is empty, and the words of
/// two texts with white space between them are those of the first and then those of
/// the second.
pub proof fn words_are_between_spaces(s: Seq<char>, c: char, t: Seq<char>)
    requires
        is_space(c),
    ensures
        s.len() > 0 && (forall|i: int| 0 <= i < s.len() ==> !is_space(#[trigger] s[i])) ==> words(s)
            == seq![s],
        words(Seq::empty()) == Seq::<Seq<char>>::empty(),
        words(s.push(c) + t) == words(s) + words(t),
    decreases s.len() + t.len(),
{
    if s.len() > 0 && forall|i: int| 0 <= i < s.len() ==> !is_space(#[trigger] s[i]) {
        let front = s.drop_last();
        assert(!is_space(s[s.len() - 1]));
        if front.len() > 0 {
            assert forall|i: int| 0 <= i < front.len() implies !is_space(#[trigger] front[i]) by {
                assert(s[i] == front[i]);
            }
            words_are_between_spaces(front, c, Seq::empty());
            assert(!is_space(s[s.len() - 2]));
            assert(front.push(s.last()) =~= s);
        } else {
            assert(words(front) =~= Seq::empty());
            assert(seq![s.last()] =~= s);
        }
        assert(words(s) =~= seq![s]);
    }
    let x = s.push(c) + t;
    if t.len() == 0 {
        assert(x.drop_last() =~= s);
        assert(words(t) =~= Seq::empty());
        assert(words(x) =~= words(s) + words(t));
    } else {
        let front = t.drop_last();
        words_are_between_spaces(s, c, front);
        assert(x.drop_last() =~= s.push(c) + front);
        assert(x.last() == t.last());
        if t.len() > 1 {
            assert(x[x.len() - 2] == t[t.len() - 2]);
            if !is_space(t[t.len() - 2]) {
                last_words_are_there(front);
            }
        } else {
            assert(x[x.len() - 2] == c);
            assert(words(front) =~= Seq::empty());
        }
        assert(words(x) =~= words(s) + words(t));
    }
}

/// A text that does not end in white space has a word.
proof fn last_words_are_there(s: Seq<char>)
    requires
        s.len() > 0,
        !is_space(s.last()),
    ensures
        words(s).len() > 0,
    decreases s.len(),
{
    if s.len() > 1 && !is_space(s[s.len() - 2]) {
        last_words_are_there(s.drop_last());
    }
}

/// Quotation marks around a text are taken off it, as many as there are, where the
/// text itself neither starts nor ends with one.
pub proof fn quotation_marks_are_taken_off(before: Seq<char>, s: Seq<char>, behind: Seq<char>)
    requires
        s.len() == 0 || s[0] != '"' && s.last() != '"',
        forall|i: int| 0 <= i < before.len() ==> #[trigger] before[i] == '"',
        forall|i: int| 0 <= i < behind.len() ==> #[trigger] behind[i] == '"',
    ensures
        unquoted(before + s + behind) == s,
    decreases before.len() + behind.len(),
{
    let x = before + s + behind;
    if before.len() > 0 {
        assert(x.skip(1) =~= before.skip(1) + s + behind);
        assert(x[0] == before[0]);
        quotation_marks_are_taken_off(before.skip(1), s, behind);
    } else if behind.len() > 0 {
        if s.len() == 0 {
            assert(x.skip(1) =~= before + s + behind.skip(1));
            assert(x[0] == behind[0]);
            quotation_marks_are_taken_off(before, s, behind.skip(1));
        } else {
            assert(x.drop_last() =~= before + s + behind.drop_last());
            assert(x.last() == behind[behind.len() - 1]);
            assert(x[0] == s[0]);
            quotation_marks_are_taken_off(before, s, behind.drop_last());
        }
    } else {
        assert(x =~= s);
    }
}

/// White space behind a text is cut off, all of it.
pub proof fn trailing_space_is_cut_off(s: Seq<char>, behind: Seq<char>)
    requires
        s.len() == 0 || !is_space(s.last()),
        forall|i: int| 0 <= i < behind.len() ==> is_space(#[trigger] behind[i]),
    ensures
        trimmed_end(s + behind) == s,
    decreases behind.len(),
{
    let x = s + behind;
    if behind.len() > 0 {
        assert(x.drop_last() =~= s + behind.drop_last());
        assert(x.last() == behind[behind.len() - 1]);
        trailing_space_is_cut_off(s, behind.drop_last());
    } else {
        assert(x =~= s);
    }
}

/// The first occurrence of a token is replaced, what stands before it stays, and what
/// stands behind it is treated likewise.
pub proof fn tokens_are_replaced_from_the_left(
    s: Seq<char>,
    token: Seq<char>,
    with: Seq<char>,
    i: int,
)
    requires
        token.len() > 0,
        found_at(s, token, i),
        forall|k: int| 0 <= k < i ==> !#[trigger] found_at(s, token, k),
    ensures
        replaced(s, token, with) == s.take(i) + with + replaced(
            s.skip(i + token.len()),
            token,
            with,
        ),
    decreases i,
{
    let m = token.len() as int;
    assert(s.take(m) =~= s.subrange(0, m));
    if i == 0 {
        assert(replaced(s, token, with) =~= s.take(0) + with + replaced(s.skip(m), token, with));
    } else {
        assert(!found_at(s, token, 0));
        let rest = s.skip(1);
        assert(rest.subrange(i - 1, i - 1 + m) =~= s.subrange(i, i + m));
        assert forall|k: int| 0 <= k < i - 1 implies !#[trigger] found_at(rest, token, k) by {
            assert(rest.subrange(k, k + m) =~= s.subrange(k + 1, k + 1 + m));
            assert(!found_at(s, token, k + 1));
        }
        tokens_are_replaced_from_the_left(rest, token, with, i - 1);
        assert(rest.skip(i - 1 + m) =~= s.skip(i + m));
        assert(replaced(s, token, with) =~= s.take(i) + with + replaced(
            s.skip(i + m),
            token,
            with,
        ));
    }
}

/// A line of four words, each without white space and the next behind a space, names
/// its last word as an extent, without quotation marks; and one of five words the
/// word before its last. A line of any other number of words names none.
pub proof fn lines_name_their_fourth_word(
    a: Seq<char>,
    b: Seq<char>,
    c: Seq<char>,
    d: Seq<char>,
    e: Seq<char>,
    dir: Seq<char>,
)
    requires
        is_word_text(a),
        is_word_text(b),
        is_word_text(c),
        is_word_text(d),
        is_word_text(e),
    ensures
        ({
            let three = a.push(' ') + (b.push(' ') + c);
            let four = a.push(' ') + (b.push(' ') + (c.push(' ') + d));
            let five = a.push(' ') + (b.push(' ') + (c.push(' ') + (d.push(' ') + e)));
            &&& !line_escapes(three, dir)
            &&& line_escapes(four, dir) == name_escapes(unquoted(d), dir)
            &&& line_escapes(five, dir) == name_escapes(unquoted(d), dir)
        }),
{
    let cd = c.push(' ') + d;
    let de = d.push(' ') + e;
    let cde = c.push(' ') + de;
    words_are_between_spaces(a, ' ', Seq::empty());
    words_are_between_spaces(b, ' ', Seq::empty());
    words_are_between_spaces(c, ' ', d);
    words_are_between_spaces(d, ' ', e);
    words_are_between_spaces(e, ' ', Seq::empty());
    words_are_between_spaces(c, ' ', de);
    words_are_between_spaces(b, ' ', c);
    words_are_between_spaces(b, ' ', cd);
    words_are_between_spaces(b, ' ', cde);
    words_are_between_spaces(a, ' ', b.push(' ') + c);
    words_are_between_spaces(a, ' ', b.push(' ') + cd);
    words_are_between_spaces(a, ' ', b.push(' ') + cde);
}

/// A text that is one word.
pub open spec fn is_word_text(s: Seq<char>) -> bool {
    s.len() > 0 && forall|i: int| 0 <= i < s.len() ==> !is_space(#[trigger] s[i])
}

/// A descriptor that ends in a line which names an extent outside the directory names
/// one, and so does one that starts with such a descriptor; without such a line it
/// does not.
pub proof fn every_line_is_looked_at(s: Seq<char>, line: Seq<char>, dir: Seq<char>)
    requires
        !line.contains('\n'),
    ensures
        descriptor_escapes(line, dir) == line_escapes(line, dir),
        descriptor_escapes(s.push('\n') + line, dir) == (descriptor_escapes(s, dir)
            || line_escapes(line, dir)),
{
    let p = pieces(s, '\n');
    pieces_are_between_separators(s, line, '\n');
    pieces_are_between_separators(line, Seq::empty(), '\n');
    let one = pieces(line, '\n');
    let all = pieces(s.push('\n') + line, '\n');
    assert(one =~= seq![line]);
    assert(all =~= p + one);
    if line_escapes(line, dir) {
        assert(line_escapes(one[0], dir));
        assert(all[p.len() as int] == line);
        assert(line_escapes(all[p.len() as int], dir));
    }
    if descriptor_escapes(s, dir) {
        let i = choose|i: int| 0 <= i < p.len() && line_escapes(#[trigger] p[i], dir);
        assert(all[i] == p[i]);
        assert(line_escapes(all[i], dir));
    }
    if descriptor_escapes(s.push('\n') + line, dir) {
        let i = choose|i: int| 0 <= i < all.len() && line_escapes(#[trigger] all[i], dir);
        if i < p.len() {
            assert(p[i] == all[i]);
            assert(line_escapes(p[i], dir));
        } else {
            assert(all[i] == line);
        }
    }
}

/// A plain name, which has no slash and is neither the current nor the parent
/// directory, is accepted in every directory.
pub proof fn plain_names_are_accepted(name: Seq<char>, dir: Seq<char>)
    requires
        name.len() > 0,
        !name.contains('/'),
        name != seq!['.'],
        name != seq!['.', '.'],
    ensures
        !name_escapes(name, dir),
{
    pieces_are_between_separators(name, Seq::empty(), '/');
    let p = pieces(name, '/');
    assert(name[0] != '/') by {
        if name[0] == '/' {
            assert(name.contains('/'));
        }
    }
    let f = |p: Seq<char>| is_component(p);
    reveal(Seq::filter);
    reveal_with_fuel(Seq::filter, 2);
    assert(p.drop_last() =~= Seq::empty());
    assert(p.drop_last().filter(f) =~= Seq::empty());
    assert(f(p.last()));
    let c = components(name);
    assert(c =~= seq![name]);
    assert(!c.contains(parent_dir())) by {
        if c.contains(parent_dir()) {
            let i = choose|i: int| 0 <= i < c.len() && c[i] == parent_dir();
            assert(c[i] == name);
        }
    }
}

/// A relative name with the parent directory among its pieces is refused in every
/// directory, wherever among them it stands, and so is an empty name.
pub proof fn parent_directories_are_refused(name: Seq<char>, dir: Seq<char>, i: int)
    requires
        !(name.len() > 0 && name[0] == '/'),
        name.len() == 0 || 0 <= i < pieces(name, '/').len() && pieces(name, '/')[i] == seq![
            '.',
            '.',
        ],
    ensures
        name_escapes(name, dir),
{
    let p = pieces(name, '/');
    let f = |p: Seq<char>| is_component(p);
    if name.len() == 0 {
        assert(name =~= Seq::empty());
        reveal(Seq::filter);
        assert(p =~= seq![Seq::<char>::empty()]);
        assert(p.drop_last() =~= Seq::empty());
        assert(p.drop_last().filter(f) =~= Seq::empty());
        assert(!f(p.last()));
        assert(components(name) =~= Seq::empty());
    } else {
        let up: Seq<char> = seq!['.', '.'];
        assert(f(p[i])) by {
            if up == seq!['.'] {
                assert(up.len() == 1);
            }
        }
        p.lemma_filter_contains_rev(f, p[i]);
    }
}

/// The walk that resolves extents is taken for odd hashes alone, and never for an
/// input that holds the bytes of the scratch token somewhere.
pub proof fn walks_are_for_odd_hashes(bytes: Seq<u8>, hash: u64, i: int)
    ensures
        Vmdk::walk_choice(bytes, hash) ==> hash % 2 == 1,
        0 <= i && i + 15 <= bytes.len() && bytes.subrange(i, i + 15) == seq![
            0x2Fu8, 0x40, 0x66, 0x75, 0x7A, 0x7A, 0x2D, 0x73, 0x63, 0x72, 0x61, 0x74, 0x63, 0x68,
            0x40,
        ] ==> !Vmdk::walk_choice(bytes, hash),
        hash % 2 == 1 && (forall|k: int|
            0 <= k && k + 15 <= bytes.len() ==> #[trigger] bytes.subrange(k, k + 15) != seq![
                0x2Fu8, 0x40, 0x66, 0x75, 0x7A, 0x7A, 0x2D, 0x73, 0x63, 0x72, 0x61, 0x74, 0x63,
                0x68, 0x40,
            ]) ==> Vmdk::walk_choice(bytes, hash),
{
    reveal_strlit("/@fuzz-scratch@");
    let token = seq![
        0x2Fu8, 0x40, 0x66, 0x75, 0x7A, 0x7A, 0x2D, 0x73, 0x63, 0x72, 0x61, 0x74, 0x63, 0x68, 0x40,
    ];
    assert(scratch_token_bytes() =~= token);
    if 0 <= i && i + 15 <= bytes.len() && bytes.subrange(i, i + 15) == token {
        assert(found_at(bytes, scratch_token_bytes(), i));
    }
    if forall|k: int|
        0 <= k && k + 15 <= bytes.len() ==> #[trigger] bytes.subrange(k, k + 15) != token {
        if occurs(bytes, scratch_token_bytes()) {
            let k = choose|k: int| #[trigger] found_at(bytes, scratch_token_bytes(), k);
            assert(bytes.subrange(k, k + 15) == token);
        }
    }
}

/// A descriptor that is prepared has the scratch directory in place of its token, where
/// the token occurs, and is refused exactly where it then names an extent outside the
/// directory.
pub proof fn descriptors_are_expanded_and_then_looked_at(
    text: Seq<char>,
    dir: Seq<char>,
    p: PreparedDescriptor,
)
    requires
        Vmdk::is_prepared(text, dir, p),
    ensures
        occurs(text, "/@fuzz-scratch@"@) ==> p.expanded is Some && p.expanded->Some_0@ == replaced(
            text,
            "/@fuzz-scratch@"@,
            dir,
        ),
        !occurs(text, "/@fuzz-scratch@"@) ==> p.expanded is None,
        p.expanded is Some ==> (p.result is Err <==> descriptor_escapes(p.expanded->Some_0@, dir)),
        p.expanded is None ==> (p.result is Err <==> descriptor_escapes(text, dir)),
{
    if !occurs(text, scratch_token()) {
        texts_without_token_stay(text, scratch_token(), dir);
    }
}

/// A plain name in an absolute directory is accepted by its absolute path, and a name
/// that starts at the current directory, or lies in another absolute place, is not.
pub proof fn names_in_the_directory_are_accepted(name: Seq<char>, dir: Seq<char>)
    requires
        name.len() > 0,
        !name.contains('/'),
        name != seq!['.'],
        name != seq!['.', '.'],
        dir.len() > 0,
        dir[0] == '/',
    ensures
        !name_escapes(dir.push('/') + name, dir),
        name_escapes(seq!['.'].push('/') + name, dir),
        name_escapes(dir, dir),
{
    let f = |p: Seq<char>| is_component(p);
    let path = dir.push('/') + name;
    let one = pieces(name, '/');
    pieces_are_between_separators(dir, name, '/');
    pieces_are_between_separators(name, Seq::empty(), '/');
    Seq::filter_distributes_over_add(pieces(dir, '/'), one, f);
    reveal(Seq::filter);
    assert(one =~= seq![name]);
    assert(one.drop_last() =~= Seq::empty());
    assert(one.drop_last().filter(f) =~= Seq::empty());
    assert(f(one.last()));
    assert(one.filter(f) =~= seq![name]);
    let c = components(path);
    let d = components(dir);
    assert(c =~= d + seq![name]);
    assert(path[0] == '/');
    assert(c.take(d.len() as int) =~= d);
    let rest = c.skip(d.len() as int);
    assert(rest =~= seq![name]);
    assert(!rest.contains(parent_dir())) by {
        if rest.contains(parent_dir()) {
            let i = choose|i: int| 0 <= i < rest.len() && rest[i] == parent_dir();
            assert(rest[i] == name);
        }
    }
    let here: Seq<char> = seq!['.'];
    pieces_are_between_separators(here, name, '/');
    assert(!here.contains('/')) by {
        if here.contains('/') {
            let i = choose|i: int| 0 <= i < here.len() && here[i] == '/';
        }
    }
    let rel = here.push('/') + name;
    assert(pieces(rel, '/')[0] == here);
    assert(rel[0] == '.');
}

} // verus!
