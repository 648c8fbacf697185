//! Reaching the daemon: which socket path to use, what the configuration file says
//! about it, and the protocol version handshake.

use vstd::prelude::*;
use vstd::endian::endianness;
use crate::protocol::{
    i32_from_ne_bytes, i32_to_ne_bytes, req, word_bytes, word_value, MAX_PROTO_VER, REQ_TAG,
};

verus! {

/// Socket path used when neither the environment nor the configuration names one.
pub const DEFAULT_SOCKET: &'static str = "/var/run/spnav.sock";

/// Configuration file that may name the socket path in a `socket = <path>` line.
pub const CONFIG_FILE: &'static str = "/etc/spnavrc";

/// The socket path: the `SPNAV_SOCKET` environment value if set (even empty),
/// else the path the configuration file names, else [`DEFAULT_SOCKET`].
pub fn choose_socket_path(env_value: Option<String>, config_value: Option<String>) -> (r: String)
    ensures
        env_value matches Some(e) ==> r@ == e@,
        env_value is None ==> (config_value matches Some(c) ==> r@ == c@),
        env_value is None && config_value is None ==> r@ == DEFAULT_SOCKET@,
{
    if let Some(path) = env_value {
        return path;
    }
    if let Some(path) = config_value {
        return path;
    }
    String::from_str(DEFAULT_SOCKET)
}

/// Unicode `White_Space`: the characters that `char::is_whitespace` accepts.
pub open spec fn is_white_space(c: char) -> bool {
    let u = c as u32;
    ||| 0x09 <= u <= 0x0d
    ||| u == 0x20
    ||| u == 0x85
    ||| u == 0xa0
    ||| u == 0x1680
    ||| 0x2000 <= u <= 0x200a
    ||| u == 0x2028
    ||| u == 0x2029
    ||| u == 0x202f
    ||| u == 0x205f
    ||| u == 0x3000
}

/// On ASCII, white space is exactly tab, line feed, vertical tab, form feed,
/// carriage return and space, as `char::is_whitespace` has it.
pub proof fn lemma_ascii_white_space(c: char)
    requires
        (c as u32) < 128,
    ensures
        is_white_space(c) <==> (c == '\t' || c == '\n' || c == '\x0b' || c == '\x0c' || c == '\r' || c
            == ' '),
{
    assert('\t' as u32 == 9 && '\n' as u32 == 10 && '\x0b' as u32 == 11 && '\x0c' as u32 == 12
        && '\r' as u32 == 13 && ' ' as u32 == 32);
}

/// The non-ASCII white space: next line, no-break space, ogham space mark, the
/// spaces U+2000..=U+200A, line and paragraph separators, narrow no-break space,
/// medium mathematical space and ideographic space.
pub proof fn lemma_unicode_white_space(c: char)
    requires
        (c as u32) >= 128,
    ensures
        is_white_space(c) <==> ({
            let u = c as u32;
            ||| u == 0x85 || u == 0xa0 || u == 0x1680
            ||| 0x2000 <= u <= 0x200a
            ||| u == 0x2028 || u == 0x2029 || u == 0x202f || u == 0x205f || u == 0x3000
        }),
{
}

/// Whether `c` is Unicode white space.
pub fn char_is_white_space(c: char) -> (r: bool)
    ensures
        r == is_white_space(c),
{
    let u = c as u32;
    (0x09 <= u && u <= 0x0d) || u == 0x20 || u == 0x85 || u == 0xa0 || u == 0x1680 || (0x2000 <= u
        && u <= 0x200a) || u == 0x2028 || u == 0x2029 || u == 0x202f || u == 0x205f || u == 0x3000
}

/// `s` without its leading white space.
pub open spec fn trim_start(s: Seq<char>) -> Seq<char>
    decreases s.len(),
{
    if s.len() > 0 && is_white_space(s[0]) {
        trim_start(s.drop_first())
    } else {
        s
    }
}

/// `s` without its trailing white space.
pub open spec fn trim_end(s: Seq<char>) -> Seq<char>
    decreases s.len(),
{
    if s.len() > 0 && is_white_space(s.last()) {
        trim_end(s.drop_last())
    } else {
        s
    }
}

/// `s` without leading and trailing white space.
pub open spec fn trim(s: Seq<char>) -> Seq<char> {
    trim_end(trim_start(s))
}

/// Whether `p` is the position of the first `'='` in `t`.
pub open spec fn first_equals_at(t: Seq<char>, p: int) -> bool {
    &&& 0 <= p < t.len()
    &&& t[p] == '='
    &&& forall|q: int| 0 <= q < p ==> t[q] != '='
}

/// The key that names the socket path.
pub open spec fn socket_key() -> Seq<char> {
    seq!['s', 'o', 'c', 'k', 'e', 't']
}

/// The socket path that one configuration line names: after leading white space,
/// the line is neither empty nor a `#` comment, holds an `=`, the text before the
/// first `=` trims to `socket`, and the text after it trims to a non-empty path.
pub open spec fn line_socket(line: Seq<char>) -> Option<Seq<char>> {
    let t = trim_start(line);
    if t.len() == 0 || t[0] == '#' || !(exists|p: int| first_equals_at(t, p)) {
        None
    } else {
        let p = choose|p: int| first_equals_at(t, p);
        let v = trim(t.subrange(p + 1, t.len() as int));
        if trim(t.subrange(0, p)) == socket_key() && v.len() > 0 {
            Some(v)
        } else {
            None
        }
    }
}

/// Indentation does not matter: a configuration line preceded by white space
/// names the same socket path as the line itself.
pub proof fn lemma_indented_line(w: char, line: Seq<char>)
    requires
        is_white_space(w),
    ensures
        line_socket(seq![w] + line) == line_socket(line),
{
    assert((seq![w] + line).drop_first() =~= line);
}

/// The socket path that the configuration `lines` name: that of the first line
/// that names one.
pub open spec fn config_socket(lines: Seq<Seq<char>>) -> Option<Seq<char>>
    decreases lines.len(),
{
    if lines.len() == 0 {
        None
    } else {
        match line_socket(lines[0]) {
            Some(v) => Some(v),
            None => config_socket(lines.drop_first()),
        }
    }
}

/// The first position in `lo..hi` that is not white space, or `hi`.
fn skip_white_front(s: &Vec<char>, lo: usize, hi: usize) -> (r: usize)
    requires
        lo <= hi <= s.len(),
    ensures
        lo <= r <= hi,
        s@.subrange(r as int, hi as int) == trim_start(s@.subrange(lo as int, hi as int)),
{
    let mut i = lo;
    while i < hi && char_is_white_space(s[i])
        invariant
            lo <= i <= hi <= s.len(),
            trim_start(s@.subrange(i as int, hi as int)) == trim_start(s@.subrange(lo as int, hi as int)),
        decreases hi - i,
    {
        assert(s@.subrange(i as int, hi as int).drop_first() =~= s@.subrange(i + 1, hi as int));
        i += 1;
    }
    i
}

/// One past the last position in `lo..hi` that is not white space, or `lo`.
fn skip_white_back(s: &Vec<char>, lo: usize, hi: usize) -> (r: usize)
    requires
        lo <= hi <= s.len(),
    ensures
        lo <= r <= hi,
        s@.subrange(lo as int, r as int) == trim_end(s@.subrange(lo as int, hi as int)),
{
    let mut j = hi;
    while j > lo && char_is_white_space(s[j - 1])
        invariant
            lo <= j <= hi <= s.len(),
            trim_end(s@.subrange(lo as int, j as int)) == trim_end(s@.subrange(lo as int, hi as int)),
        decreases j - lo,
    {
        assert(s@.subrange(lo as int, j as int).drop_last() =~= s@.subrange(lo as int, j - 1));
        j -= 1;
    }
    j
}

/// The position of the first `'='` in `lo..hi`, or `hi` when there is none.
fn find_equals(s: &Vec<char>, lo: usize, hi: usize) -> (r: usize)
    requires
        lo <= hi <= s.len(),
    ensures
        lo <= r <= hi,
        r < hi ==> s@[r as int] == '=',
        forall|q: int| lo <= q < r ==> s@[q] != '=',
{
    let mut i = lo;
    while i < hi && s[i] != '='
        invariant
            lo <= i <= hi <= s.len(),
            forall|q: int| lo <= q < i ==> s@[q] != '=',
        decreases hi - i,
    {
        i += 1;
    }
    i
}

/// Whether positions `lo..hi` of `s` spell `socket`.
fn is_socket_key(s: &Vec<char>, lo: usize, hi: usize) -> (r: bool)
    requires
        lo <= hi <= s.len(),
    ensures
        r == (s@.subrange(lo as int, hi as int) == socket_key()),
{
    let r = hi - lo == 6 && s[lo] == 's' && s[lo + 1] == 'o' && s[lo + 2] == 'c' && s[lo + 3] == 'k'
        && s[lo + 4] == 'e' && s[lo + 5] == 't';
    proof {
        let key = s@.subrange(lo as int, hi as int);
        if r {
            assert(key =~= socket_key());
        } else if key == socket_key() {
            assert(socket_key().len() == 6);
            assert(key.len() == hi - lo);
            assert(key[0] == s@[lo as int] && key[1] == s@[lo + 1] && key[2] == s@[lo + 2] && key[3]
                == s@[lo + 3] && key[4] == s@[lo + 4] && key[5] == s@[lo + 5]);
            assert(key[0] == 's' && key[1] == 'o' && key[2] == 'c' && key[3] == 'k' && key[4] == 'e'
                && key[5] == 't');
        }
    }
    r
}

/// The characters at positions `lo..hi` of `s`.
fn copy_range(s: &Vec<char>, lo: usize, hi: usize) -> (r: Vec<char>)
    requires
        lo <= hi <= s.len(),
    ensures
        r@ == s@.subrange(lo as int, hi as int),
{
    let mut value: Vec<char> = Vec::new();
    let mut i = lo;
    while i < hi
        invariant
            lo <= i <= hi <= s.len(),
            value@ == s@.subrange(lo as int, i as int),
        decreases hi - i,
    {
        value.push(s[i]);
        assert(value@ =~= s@.subrange(lo as int, i + 1));
        i += 1;
    }
    value
}

/// How [`line_socket`] reads a line whose text after leading white space starts at
/// `start` and whose first `=` after that is at `eq`.
proof fn lemma_line_with_equals(line: Seq<char>, start: int, eq: int)
    requires
        0 <= start <= eq < line.len(),
        line.subrange(start, line.len() as int) == trim_start(line),
        line[start] != '#',
        line[eq] == '=',
        forall|q: int| start <= q < eq ==> line[q] != '=',
    ensures
        line_socket(line) == ({
            let v = trim(line.subrange(eq + 1, line.len() as int));
            if trim(line.subrange(start, eq)) == socket_key() && v.len() > 0 {
                Some(v)
            } else {
                None::<Seq<char>>
            }
        }),
{
    let t = trim_start(line);
    let p = eq - start;
    assert(t[p] == line[eq]);
    assert forall|q: int| 0 <= q < p implies t[q] != '=' by {
        assert(t[q] == line[start + q]);
    }
    assert(first_equals_at(t, p));
    assert forall|p2: int| first_equals_at(t, p2) implies p2 == p by {
        if p2 < p {
            assert(t[p2] == line[start + p2]);
        }
    }
    assert(t.subrange(0, p) =~= line.subrange(start, eq));
    assert(t.subrange(p + 1, t.len() as int) =~= line.subrange(eq + 1, line.len() as int));
}

/// [`line_socket`] of a line with no `=` after its leading white space.
proof fn lemma_line_without_equals(line: Seq<char>, start: int)
    requires
        0 <= start <= line.len(),
        line.subrange(start, line.len() as int) == trim_start(line),
        forall|q: int| start <= q < line.len() ==> line[q] != '=',
    ensures
        line_socket(line) is None,
{
    let t = trim_start(line);
    assert forall|p: int| !first_equals_at(t, p) by {
        if 0 <= p < t.len() {
            assert(t[p] == line[start + p]);
        }
    }
}

/// The socket path that configuration line `line` names, if it names one.
fn socket_in_line(line: &Vec<char>) -> (r: Option<Vec<char>>)
    ensures
        match line_socket(line@) {
            None => r is None,
            Some(v) => r matches Some(x) && x@ == v,
        },
{
    let len = line.len();
    let start = skip_white_front(line, 0, len);
    assert(line@.subrange(0, len as int) =~= line@);
    if start == len || line[start] == '#' {
        return None;
    }
    let eq = find_equals(line, start, len);
    if eq == len {
        proof {
            lemma_line_without_equals(line@, start as int);
        }
        return None;
    }
    proof {
        lemma_line_with_equals(line@, start as int, eq as int);
    }
    let key_lo = skip_white_front(line, start, eq);
    let key_hi = skip_white_back(line, key_lo, eq);
    let val_lo = skip_white_front(line, eq + 1, len);
    let val_hi = skip_white_back(line, val_lo, len);
    if !is_socket_key(line, key_lo, key_hi) || val_hi == val_lo {
        return None;
    }
    Some(copy_range(line, val_lo, val_hi))
}

/// The socket path that the lines of the configuration file name: that of the
/// first line of the form `socket = <path>`, comments and blank lines skipped.
pub fn socket_from_config(lines: &Vec<Vec<char>>) -> (r: Option<Vec<char>>)
    ensures
        match config_socket(lines.deep_view()) {
            None => r is None,
            Some(v) => r matches Some(x) && x@ == v,
        },
{
    let mut i: usize = 0;
    assert(lines.deep_view().subrange(0, lines.len() as int) =~= lines.deep_view());
    while i < lines.len()
        invariant
            0 <= i <= lines.len(),
            config_socket(lines.deep_view()) == config_socket(lines.deep_view().subrange(
                i as int,
                lines.len() as int,
            )),
        decreases lines.len() - i,
    {
        let ghost rest = lines.deep_view().subrange(i as int, lines.len() as int);
        assert(rest[0] == lines[i as int]@);
        assert(rest.drop_first() =~= lines.deep_view().subrange(i + 1, lines.len() as int));
        let found = socket_in_line(&lines[i]);
        if found.is_some() {
            return found;
        }
        i += 1;
    }
    assert(lines.deep_view().subrange(lines.len() as int, lines.len() as int) =~= Seq::<
        Seq<char>,
    >::empty());
    None
}

/// The four bytes that ask the daemon to switch to the highest protocol version
/// this client speaks: the tagged `CHANGE_PROTO` request word, in native byte order.
pub fn change_proto_request() -> (r: [u8; 4])
    ensures
        r@ == word_bytes(REQ_TAG | req::CHANGE_PROTO | MAX_PROTO_VER, endianness()),
{
    i32_to_ne_bytes(REQ_TAG | req::CHANGE_PROTO | MAX_PROTO_VER)
}

/// The protocol version that the daemon's answer to the handshake grants. The
/// daemon answers with one native-endian word; a word that carries the request tag
/// grants the version in its low byte, of which the client takes at most
/// [`MAX_PROTO_VER`], the highest version it speaks. `None` when no answer came in
/// time or the word is untagged: the client then falls back to version 0.
pub fn negotiated_version(answer: Option<[u8; 4]>) -> (r: Option<u8>)
    ensures
        answer is None ==> r is None,
        answer matches Some(b) ==> ({
            let w = word_value(b@, endianness());
            if w & REQ_TAG != 0 {
                r == Some((if (w & 0xff) < MAX_PROTO_VER { w & 0xff } else { MAX_PROTO_VER }) as u8)
            } else {
                r is None
            }
        }),
        r matches Some(v) ==> v <= MAX_PROTO_VER,
{
    match answer {
        Some(buf) => {
            let w = i32_from_ne_bytes(buf);
            if w & REQ_TAG == 0 {
                return None;
            }
            let granted = w & 0xff;
            assert(0 <= w & 0xff <= 0xff) by (bit_vector);
            if granted < MAX_PROTO_VER {
                Some(granted as u8)
            } else {
                Some(MAX_PROTO_VER as u8)
            }
        },
        None => None,
    }
}

} // verus!
