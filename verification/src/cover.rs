//! Cover art: where a cover URL is cached on disk, and the cache's state.
//!
//! The cache decides what to do with a URL; the caller performs the file
//! checks and downloads that a `CoverAction` asks for and reports their
//! outcome back as `CoverResult`s.
use vstd::prelude::*;
use vstd::string::StringSliceAdditionalSpecFns;
use vstd::utf8::{decode_utf8, valid_utf8};

use crate::text::{
    chars_eq, chars_of, extend_chars, hex_chars, hex_padded, slice_range, starts_with,
    string_from_chars, strip_prefix, stripped,
};

verus! {

/// The outcome of a download or a file check: `url` is available at `path`
/// (empty when it is not).
pub struct CoverResult {
    pub url: String,
    pub path: String,
}

/// What the caller has to do after `CoverCache::set_url`.
pub enum CoverAction {
    /// Nothing.
    Nothing,
    /// Report `path` for `url` if it is an existing file.
    UseIfFile { url: String, path: String },
    /// Report `destination` for `url` if it is an existing file; otherwise
    /// download `url` into it and report the outcome.
    FetchUnlessCached { url: String, destination: String },
}

/// What the cache asks of its caller for a newly requested `url`: nothing
/// without a URL or a directory; for a local file, to report it if it
/// exists; otherwise, to report the cached copy or download one.
pub open spec fn requests(directory: Option<String>, url: Seq<char>, r: CoverAction) -> bool {
    if url.len() == 0 || directory is None {
        r is Nothing
    } else if file_scheme().is_prefix_of(url) || url[0] == '/' {
        match local_candidate(url) {
            Some(p) => r matches CoverAction::UseIfFile { url: u, path } && u@ == url && path@ == p,
            None => r is Nothing,
        }
    } else {
        r matches CoverAction::FetchUnlessCached { url: u, destination } && u@ == url
            && destination@ == cache_path_of(directory.unwrap()@, url)
    }
}

/// The cover of the current track and where it is cached.
pub struct CoverCache {
    pub directory: Option<String>,
    pub requested_url: String,
    pub path: String,
}

/// The path that results leave: that of the last result for `requested`,
/// else `path`.
pub open spec fn polled_path(requested: Seq<char>, path: Seq<char>, results: Seq<CoverResult>) -> Seq<
    char,
>
    decreases results.len(),
{
    if results.len() == 0 {
        path
    } else if results.last().url@ == requested {
        results.last().path@
    } else {
        polled_path(requested, path, results.drop_last())
    }
}

/// The 64-bit FNV-1a hash of `bytes`.
pub open spec fn fnv1a(bytes: Seq<u8>) -> u64
    decreases bytes.len(),
{
    if bytes.len() == 0 {
        0xcbf29ce484222325u64
    } else {
        (fnv1a(bytes.drop_last()) ^ (bytes.last() as u64)).wrapping_mul(0x100000001b3u64)
    }
}

/// The 64-bit FNV-1a hash of a URL's UTF-8 bytes.
pub fn hash_url(url: &str) -> (r: u64)
    ensures
        r == fnv1a(encode_utf8_of(url@)),
{
    let bytes = url.as_bytes();
    let mut hash: u64 = 0xcbf29ce484222325u64;
    let mut k: usize = 0;
    while k < bytes.len()
        invariant
            k <= bytes@.len(),
            bytes@ == encode_utf8_of(url@),
            hash == fnv1a(bytes@.take(k as int)),
        decreases bytes@.len() - k,
    {
        assert(bytes@.take(k + 1).drop_last() =~= bytes@.take(k as int));
        hash = (hash ^ (bytes[k] as u64)).wrapping_mul(0x100000001b3u64);
        k = k + 1;
    }
    assert(bytes@.take(k as int) =~= bytes@);
    hash
}

/// `c` in ASCII lower case (`char::to_ascii_lowercase`).
pub open spec fn ascii_lower(c: char) -> char {
    if 'A' <= c && c <= 'Z' {
        ((c as u32) + 32) as char
    } else {
        c
    }
}

/// `c` in ASCII lower case: upper-case ASCII letters become the
/// corresponding lower-case letters; every other character is unchanged.
pub(crate) fn to_ascii_lowercase(c: char) -> (r: char)
    ensures
        r == ascii_lower(c),
{
    if 'A' <= c && c <= 'Z' {
        let b: u8 = c as u8;
        assert(b == c as u32);
        ((b + 32) as char)
    } else {
        c
    }
}

/// Two texts are equal up to ASCII case (`str::eq_ignore_ascii_case`).
pub open spec fn eq_ignore_case(a: Seq<char>, b: Seq<char>) -> bool {
    a.len() == b.len() && forall|i: int| 0 <= i < a.len() ==> ascii_lower(a[i]) == ascii_lower(b[i])
}

pub fn eq_ignore_ascii_case(a: &[char], b: &[char]) -> (r: bool)
    ensures
        r == eq_ignore_case(a@, b@),
{
    if a.len() != b.len() {
        return false;
    }
    let mut k: usize = 0;
    while k < a.len()
        invariant
            k <= a@.len() == b@.len(),
            forall|i: int| 0 <= i < k ==> ascii_lower(a@[i]) == ascii_lower(b@[i]),
        decreases a@.len() - k,
    {
        if to_ascii_lowercase(a[k]) != to_ascii_lowercase(b[k]) {
            return false;
        }
        k = k + 1;
    }
    true
}

/// The part of a URL before its query or fragment.
pub open spec fn before_query(s: Seq<char>) -> Seq<char>
    decreases s.len(),
{
    if s.len() == 0 {
        s
    } else if s[0] == '?' || s[0] == '#' {
        Seq::empty()
    } else {
        seq![s[0]] + before_query(s.drop_first())
    }
}

/// The index of the last `.` in `s`, if any.
pub open spec fn last_dot(s: Seq<char>) -> Option<int>
    decreases s.len(),
{
    if s.len() == 0 {
        None
    } else if s.last() == '.' {
        Some(s.len() - 1)
    } else {
        last_dot(s.drop_last())
    }
}

/// The image formats a cover file may keep its extension for.
pub open spec fn known_extension(e: Seq<char>) -> bool {
    ||| eq_ignore_case(e, seq!['j', 'p', 'g'])
    ||| eq_ignore_case(e, seq!['j', 'p', 'e', 'g'])
    ||| eq_ignore_case(e, seq!['p', 'n', 'g'])
    ||| eq_ignore_case(e, seq!['w', 'e', 'b', 'p'])
}

/// The extension a cached cover gets: the URL path's own when it names a
/// known image format (in its own case), else `jpg`.
pub open spec fn extension_of(url: Seq<char>) -> Seq<char> {
    let path = before_query(url);
    match last_dot(path) {
        Some(i) => {
            let e = path.skip(i + 1);
            if known_extension(e) {
                e
            } else {
                seq!['j', 'p', 'g']
            }
        },
        None => seq!['j', 'p', 'g'],
    }
}

/// The extension for a cover URL's cache file.
pub fn extension(url: &[char]) -> (r: Vec<char>)
    ensures
        r@ == extension_of(url@),
{
    let mut end: usize = 0;
    assert(url@.take(0) =~= Seq::<char>::empty());
    assert(url@.skip(0) =~= url@);
    while end < url.len() && url[end] != '?' && url[end] != '#'
        invariant
            end <= url@.len(),
            forall|i: int| 0 <= i < end ==> url@[i] != '?' && url@[i] != '#',
            before_query(url@) == url@.take(end as int) + before_query(url@.skip(end as int)),
        decreases url@.len() - end,
    {
        assert(url@.skip(end as int).drop_first() =~= url@.skip(end + 1));
        assert(url@.take(end + 1) =~= url@.take(end as int) + seq![url@[end as int]]);
        end = end + 1;
    }
    let path = slice_range(url, 0, end);
    assert(path@ == before_query(url@)) by {
        assert(url@.take(end as int) =~= path@);
        if end < url@.len() {
            assert(before_query(url@.skip(end as int)) =~= Seq::<char>::empty());
        } else {
            assert(url@.skip(end as int) =~= Seq::<char>::empty());
        }
    }
    let mut dot: usize = path.len();
    assert(path@.take(path@.len() as int) =~= path@);
    while dot > 0 && path[dot - 1] != '.'
        invariant
            dot <= path@.len(),
            last_dot(path@) == last_dot(path@.take(dot as int)),
        decreases dot,
    {
        assert(path@.take(dot as int).drop_last() =~= path@.take(dot - 1));
        dot = dot - 1;
    }
    assert(path@.take(path@.len() as int) =~= path@);
    let jpg = vec!['j', 'p', 'g'];
    assert(jpg@ =~= seq!['j', 'p', 'g']);
    if dot == 0 {
        assert(path@.take(0) =~= Seq::<char>::empty());
        return jpg;
    }
    assert(last_dot(path@) == Some(dot - 1));
    let e = slice_range(path.as_slice(), dot, path.len());
    assert(e@ =~= path@.skip(dot as int));
    let jpeg = vec!['j', 'p', 'e', 'g'];
    let png = vec!['p', 'n', 'g'];
    let webp = vec!['w', 'e', 'b', 'p'];
    assert(jpeg@ =~= seq!['j', 'p', 'e', 'g']);
    assert(png@ =~= seq!['p', 'n', 'g']);
    assert(webp@ =~= seq!['w', 'e', 'b', 'p']);
    if eq_ignore_ascii_case(e.as_slice(), jpg.as_slice()) || eq_ignore_ascii_case(
        e.as_slice(),
        jpeg.as_slice(),
    ) || eq_ignore_ascii_case(e.as_slice(), png.as_slice()) || eq_ignore_ascii_case(
        e.as_slice(),
        webp.as_slice(),
    ) {
        e
    } else {
        jpg
    }
}

/// `name` inside `directory` (`Path::join` with a relative name on Unix).
pub open spec fn joined(directory: Seq<char>, name: Seq<char>) -> Seq<char> {
    if directory.len() == 0 || directory.last() == '/' {
        directory + name
    } else {
        directory + seq!['/'] + name
    }
}

pub fn join_path(directory: &[char], name: &[char]) -> (r: Vec<char>)
    ensures
        r@ == joined(directory@, name@),
{
    let mut r = slice_range(directory, 0, directory.len());
    assert(r@ =~= directory@);
    if directory.len() > 0 && directory[directory.len() - 1] != '/' {
        r.push('/');
    }
    extend_chars(&mut r, name);
    r
}

/// The cache file of a cover URL: its hash in 16 hex digits and its extension.
pub open spec fn cache_path_of(directory: Seq<char>, url: Seq<char>) -> Seq<char> {
    joined(
        directory,
        hex_padded(fnv1a(encode_utf8_of(url)) as nat, 16) + seq!['.'] + extension_of(url),
    )
}

/// The UTF-8 encoding of a text.
pub open spec fn encode_utf8_of(s: Seq<char>) -> Seq<u8> {
    vstd::utf8::encode_utf8(s)
}

/// Where the cover at `url` is cached inside `directory`.
pub fn cache_path(directory: &str, url: &str) -> (r: String)
    ensures
        r@ == cache_path_of(directory@, url@),
{
    let hash = hash_url(url);
    let mut name = hex_chars(hash, 16);
    name.push('.');
    let url_chars = chars_of(url);
    let ext = extension(url_chars.as_slice());
    extend_chars(&mut name, ext.as_slice());
    let dir = chars_of(directory);
    let path = join_path(dir.as_slice(), name.as_slice());
    string_from_chars(path.as_slice())
}

/// The name of the partial file a download of `url` is written to.
pub open spec fn temporary_path_of(directory: Seq<char>, url: Seq<char>) -> Seq<char> {
    joined(
        directory,
        seq!['.', 'c', 'o', 'v', 'e', 'r', '-'] + hex_padded(fnv1a(encode_utf8_of(url)) as nat, 16)
            + seq!['.', 'p', 'a', 'r', 't'],
    )
}

/// Where a download of `url` is written before it is moved into place.
pub fn temporary_path(directory: &str, url: &str) -> (r: String)
    ensures
        r@ == temporary_path_of(directory@, url@),
{
    let hash = hash_url(url);
    let mut name = vec!['.', 'c', 'o', 'v', 'e', 'r', '-'];
    let digits = hex_chars(hash, 16);
    extend_chars(&mut name, digits.as_slice());
    let part = vec!['.', 'p', 'a', 'r', 't'];
    extend_chars(&mut name, part.as_slice());
    assert(name@ =~= seq!['.', 'c', 'o', 'v', 'e', 'r', '-'] + hex_padded(
        fnv1a(encode_utf8_of(url@)) as nat,
        16,
    ) + seq!['.', 'p', 'a', 'r', 't']);
    let dir = chars_of(directory);
    let path = join_path(dir.as_slice(), name.as_slice());
    string_from_chars(path.as_slice())
}

/// The value of an ASCII hexadecimal digit.
pub open spec fn hex_value(b: u8) -> Option<u8> {
    if 0x30 <= b && b <= 0x39 {
        Some((b - 0x30) as u8)
    } else if 0x61 <= b && b <= 0x66 {
        Some((b - 0x61 + 10) as u8)
    } else if 0x41 <= b && b <= 0x46 {
        Some((b - 0x41 + 10) as u8)
    } else {
        None
    }
}

/// The value of an ASCII hexadecimal digit, if `byte` is one.
pub fn hex(byte: u8) -> (r: Option<u8>)
    ensures
        r == hex_value(byte),
        r matches Some(v) ==> v < 16,
{
    if 0x30 <= byte && byte <= 0x39 {
        Some(byte - 0x30)
    } else if 0x61 <= byte && byte <= 0x66 {
        Some(byte - 0x61 + 10)
    } else if 0x41 <= byte && byte <= 0x46 {
        Some(byte - 0x41 + 10)
    } else {
        None
    }
}

/// Percent-decoded bytes: `%` and two hex digits become that byte when two
/// more bytes follow the `%`; a `%` with a non-hex digit after it fails.
pub open spec fn percent_decoded_bytes(b: Seq<u8>) -> Option<Seq<u8>>
    decreases b.len(),
{
    if b.len() == 0 {
        Some(Seq::empty())
    } else if b[0] == 0x25 && 2 < b.len() {
        match (hex_value(b[1]), hex_value(b[2]), percent_decoded_bytes(b.skip(3))) {
            (Some(h), Some(l), Some(rest)) => Some(seq![(h * 16 + l) as u8] + rest),
            _ => None,
        }
    } else {
        match percent_decoded_bytes(b.skip(1)) {
            Some(rest) => Some(seq![b[0]] + rest),
            None => None,
        }
    }
}

/// `String::from_utf8(bytes).ok()`: the text the bytes encode, exactly when
/// they are valid UTF-8.
#[verifier::external_body]
pub(crate) fn utf8_string(bytes: Vec<u8>) -> (r: Option<String>)
    ensures
        r is Some <==> valid_utf8(bytes@),
        r matches Some(s) ==> s@ == decode_utf8(bytes@),
{
    String::from_utf8(bytes).ok()
}

/// The text that percent-decoding `value` gives, when it is valid UTF-8.
pub open spec fn percent_decoded(value: Seq<char>) -> Option<Seq<char>> {
    match percent_decoded_bytes(encode_utf8_of(value)) {
        Some(b) => if valid_utf8(b) {
            Some(decode_utf8(b))
        } else {
            None
        },
        None => None,
    }
}

/// Decodes `%XX` escapes in a file URL path.
pub fn percent_decode(value: &str) -> (r: Option<String>)
    ensures
        r matches Some(s) ==> percent_decoded(value@) == Some(s@),
        r is None ==> percent_decoded(value@) is None,
{
    let bytes = value.as_bytes();
    let ghost all = bytes@;
    let mut decoded: Vec<u8> = Vec::new();
    let mut index: usize = 0;
    assert(all.skip(0) =~= all);
    while index < bytes.len()
        invariant
            index <= bytes@.len(),
            all == bytes@,
            all == encode_utf8_of(value@),
            percent_decoded_bytes(all) == match percent_decoded_bytes(all.skip(index as int)) {
                Some(rest) => Some(decoded@ + rest),
                None => None,
            },
        decreases bytes@.len() - index,
    {
        let ghost tail = all.skip(index as int);
        if bytes[index] == 0x25 && bytes.len() - index > 2 {
            let high = hex(bytes[index + 1]);
            let low = hex(bytes[index + 2]);
            assert(tail[1] == bytes@[index + 1]);
            assert(tail[2] == bytes@[index + 2]);
            assert(tail.skip(3) =~= all.skip(index + 3));
            match (high, low) {
                (Some(h), Some(l)) => {
                    let byte = h * 16 + l;
                    assert(h << 4 | l == byte) by (bit_vector)
                        requires
                            h < 16,
                            l < 16,
                            byte == h * 16 + l,
                    ;
                    let ghost d0 = decoded@;
                    decoded.push(byte);
                    assert(decoded@ =~= d0 + seq![byte]);
                    proof {
                        if let Some(rest) = percent_decoded_bytes(all.skip(index + 3)) {
                            assert(d0 + (seq![byte] + rest) =~= decoded@ + rest);
                        }
                    }
                    index = index + 3;
                },
                _ => {
                    return None;
                },
            }
        } else {
            let ghost d0 = decoded@;
            decoded.push(bytes[index]);
            assert(tail.skip(1) =~= all.skip(index + 1));
            proof {
                if let Some(rest) = percent_decoded_bytes(all.skip(index + 1)) {
                    assert(d0 + (seq![tail[0]] + rest) =~= decoded@ + rest);
                }
            }
            index = index + 1;
        }
    }
    assert(all.skip(index as int) =~= Seq::<u8>::empty());
    assert(decoded@ + Seq::<u8>::empty() =~= decoded@);
    utf8_string(decoded)
}

/// Whether a path is absolute: on Unix, whether it starts with the root `/`.
pub(crate) fn is_absolute(path: &str) -> (r: bool)
    ensures
        r == (path@.len() > 0 && path@[0] == '/'),
{
    let chars = chars_of(path);
    chars.len() > 0 && chars[0] == '/'
}

/// "file://"
pub open spec fn file_scheme() -> Seq<char> {
    seq!['f', 'i', 'l', 'e', ':', '/', '/']
}

/// "localhost"
pub open spec fn localhost() -> Seq<char> {
    seq!['l', 'o', 'c', 'a', 'l', 'h', 'o', 's', 't']
}

/// The local file a cover URL names, when it names an absolute path: a
/// `file://` URL (optionally with the host `localhost`) percent-decoded, or
/// the URL itself.
pub open spec fn local_candidate(url: Seq<char>) -> Option<Seq<char>> {
    let path = match stripped(url, file_scheme()) {
        Some(encoded) => {
            let encoded = match stripped(encoded, localhost()) {
                Some(rest) => rest,
                None => encoded,
            };
            percent_decoded(encoded)
        },
        None => Some(url),
    };
    match path {
        Some(p) => if p.len() > 0 && p[0] == '/' {
            Some(p)
        } else {
            None
        },
        None => None,
    }
}

/// The absolute path that a local cover URL names. Whether a file exists
/// there is for the caller to check.
pub fn local_path(url: &str) -> (r: Option<String>)
    ensures
        r matches Some(p) ==> local_candidate(url@) == Some(p@),
        r is None ==> local_candidate(url@) is None,
{
    let chars = chars_of(url);
    let scheme = vec!['f', 'i', 'l', 'e', ':', '/', '/'];
    assert(scheme@ =~= file_scheme());
    let path = match strip_prefix(chars.as_slice(), scheme.as_slice()) {
        Some(encoded) => {
            let host = vec!['l', 'o', 'c', 'a', 'l', 'h', 'o', 's', 't'];
            assert(host@ =~= localhost());
            let encoded = match strip_prefix(encoded.as_slice(), host.as_slice()) {
                Some(rest) => rest,
                None => encoded,
            };
            let text = string_from_chars(encoded.as_slice());
            match percent_decode(text.as_str()) {
                Some(p) => p,
                None => {
                    return None;
                },
            }
        },
        None => url.to_owned(),
    };
    if is_absolute(path.as_str()) {
        Some(path)
    } else {
        None
    }
}

/// "http://" and "https://"
pub open spec fn http_scheme() -> Seq<char> {
    seq!['h', 't', 't', 'p', ':', '/', '/']
}

pub open spec fn https_scheme() -> Seq<char> {
    seq!['h', 't', 't', 'p', 's', ':', '/', '/']
}

/// The index of the first `c` in `s`, if any.
pub open spec fn first_index(s: Seq<char>, c: char) -> Option<int>
    decreases s.len(),
{
    if s.len() == 0 {
        None
    } else if s[0] == c {
        Some(0)
    } else {
        match first_index(s.drop_first(), c) {
            Some(i) => Some(i + 1),
            None => None,
        }
    }
}

/// ".music.126.net"
pub open spec fn music_domain() -> Seq<char> {
    seq!['.', 'm', 'u', 's', 'i', 'c', '.', '1', '2', '6', '.', 'n', 'e', 't']
}

pub open spec fn all_ascii_digits(s: Seq<char>) -> bool {
    forall|i: int| 0 <= i < s.len() ==> '0' <= #[trigger] s[i] && s[i] <= '9'
}

/// A NetEase image host `p<digits>.music.126.net`.
pub open spec fn numbered_host(host: Seq<char>) -> bool {
    &&& host.len() >= 1 + music_domain().len()
    &&& host[0] == 'p'
    &&& host.skip(host.len() - music_domain().len()) == music_domain()
    &&& all_ascii_digits(host.subrange(1, host.len() - music_domain().len()))
}

/// The path part after the host of an `http(s)` URL that is served by a
/// numbered NetEase image host.
pub open spec fn numbered_path(url: Seq<char>, scheme: Seq<char>) -> Option<Seq<char>> {
    match stripped(url, scheme) {
        Some(rest) => match first_index(rest, '/') {
            Some(i) => if numbered_host(rest.take(i)) {
                Some(rest.skip(i + 1))
            } else {
                None
            },
            None => None,
        },
        None => None,
    }
}

/// "https://p1.music.126.net/"
pub open spec fn canonical_host_prefix() -> Seq<char> {
    seq![
        'h',
        't',
        't',
        'p',
        's',
        ':',
        '/',
        '/',
        'p',
        '1',
        '.',
        'm',
        'u',
        's',
        'i',
        'c',
        '.',
        '1',
        '2',
        '6',
        '.',
        'n',
        'e',
        't',
        '/',
    ]
}

/// Cover URLs on a numbered NetEase image host are fetched from `p1`; any
/// other URL is fetched as it is.
pub open spec fn normalized_url(url: Seq<char>) -> Seq<char> {
    match numbered_path(url, http_scheme()) {
        Some(path) => canonical_host_prefix() + path,
        None => match numbered_path(url, https_scheme()) {
            Some(path) => canonical_host_prefix() + path,
            None => url,
        },
    }
}

proof fn lemma_first_index_after(a: Seq<char>, b: Seq<char>, c: char)
    requires
        forall|i: int| 0 <= i < a.len() ==> a[i] != c,
        b.len() > 0,
        b[0] == c,
    ensures
        first_index(a + b, c) == Some(a.len() as int),
    decreases a.len(),
{
    if a.len() > 0 {
        lemma_first_index_after(a.drop_first(), b, c);
        assert((a + b).drop_first() =~= a.drop_first() + b);
    } else {
        assert(a + b =~= b);
    }
}

/// A normalized cover URL normalizes to itself.
pub proof fn normalize_is_idempotent(url: Seq<char>)
    ensures
        normalized_url(normalized_url(url)) == normalized_url(url),
{
    let n = normalized_url(url);
    if n != url {
        let path = n.skip(canonical_host_prefix().len() as int);
        assert(n =~= canonical_host_prefix() + path);
        let host = seq!['p', '1', '.', 'm', 'u', 's', 'i', 'c', '.', '1', '2', '6', '.', 'n', 'e', 't'];
        let rest = n.skip(https_scheme().len() as int);
        assert(rest =~= host + (seq!['/'] + path));
        assert(!http_scheme().is_prefix_of(n)) by {
            assert(n[4] == 's');
        }
        assert(https_scheme().is_prefix_of(n));
        lemma_first_index_after(host, seq!['/'] + path, '/');
        assert(rest.take(16) =~= host);
        assert(host.skip(host.len() - music_domain().len()) =~= music_domain());
        assert(host.subrange(1, host.len() - music_domain().len()) =~= seq!['1']);
        assert(numbered_host(host));
        assert(rest.skip(17) =~= path);
    }
}

pub(crate) fn find_char(s: &[char], c: char) -> (r: Option<usize>)
    ensures
        r matches Some(i) ==> first_index(s@, c) == Some(i as int) && i < s@.len(),
        r is None ==> first_index(s@, c) is None,
{
    let mut k: usize = 0;
    assert(s@.skip(0) =~= s@);
    while k < s.len()
        invariant
            k <= s@.len(),
            forall|i: int| 0 <= i < k ==> s@[i] != c,
            first_index(s@, c) == match first_index(s@.skip(k as int), c) {
                Some(i) => Some(i + k),
                None => None,
            },
        decreases s@.len() - k,
    {
        if s[k] == c {
            return Some(k);
        }
        assert(s@.skip(k as int).drop_first() =~= s@.skip(k + 1));
        k = k + 1;
    }
    None
}

fn numbered_host_exec(host: &[char]) -> (r: bool)
    ensures
        r == numbered_host(host@),
{
    let domain = vec!['.', 'm', 'u', 's', 'i', 'c', '.', '1', '2', '6', '.', 'n', 'e', 't'];
    assert(domain@ =~= music_domain());
    if host.len() < 1 + domain.len() || host[0] != 'p' {
        return false;
    }
    let suffix = slice_range(host, host.len() - domain.len(), host.len());
    assert(suffix@ =~= host@.skip(host@.len() - music_domain().len()));
    if !chars_eq(suffix.as_slice(), domain.as_slice()) {
        return false;
    }
    let end = host.len() - domain.len();
    let mut k: usize = 1;
    while k < end
        invariant
            1 <= k <= end <= host@.len(),
            end == host@.len() - music_domain().len(),
            host@.len() >= 1 + music_domain().len(),
            host@[0] == 'p',
            host@.skip(host@.len() - music_domain().len()) == music_domain(),
            forall|i: int| 1 <= i < k ==> '0' <= host@[i] && host@[i] <= '9',
        decreases end - k,
    {
        if !('0' <= host[k] && host[k] <= '9') {
            assert(host@.subrange(1, end as int)[k - 1] == host@[k as int]);
            assert(!('0' <= host@.subrange(1, end as int)[k - 1] && host@.subrange(
                1,
                end as int,
            )[k - 1] <= '9'));
            return false;
        }
        k = k + 1;
    }
    assert(all_ascii_digits(host@.subrange(1, end as int)));
    true
}

fn numbered_path_exec(url: &[char], scheme: &[char]) -> (r: Option<Vec<char>>)
    ensures
        r matches Some(p) ==> numbered_path(url@, scheme@) == Some(p@),
        r is None ==> numbered_path(url@, scheme@) is None,
{
    let rest = match strip_prefix(url, scheme) {
        Some(rest) => rest,
        None => {
            return None;
        },
    };
    let slash = match find_char(rest.as_slice(), '/') {
        Some(i) => i,
        None => {
            return None;
        },
    };
    assert(slash < rest.len());
    let host = slice_range(rest.as_slice(), 0, slash);
    assert(host@ =~= rest@.take(slash as int));
    if numbered_host_exec(host.as_slice()) {
        let path = slice_range(rest.as_slice(), slash + 1, rest.len());
        assert(path@ =~= rest@.skip(slash + 1));
        Some(path)
    } else {
        None
    }
}

/// The URL a cover is downloaded from.
pub fn normalize_url(url: &str) -> (r: String)
    ensures
        r@ == normalized_url(url@),
{
    let chars = chars_of(url);
    let http = vec!['h', 't', 't', 'p', ':', '/', '/'];
    let https = vec!['h', 't', 't', 'p', 's', ':', '/', '/'];
    assert(http@ =~= http_scheme());
    assert(https@ =~= https_scheme());
    let found = match numbered_path_exec(chars.as_slice(), http.as_slice()) {
        Some(path) => Some(path),
        None => numbered_path_exec(chars.as_slice(), https.as_slice()),
    };
    match found {
        Some(path) => {
            let mut r = vec![
                'h',
                't',
                't',
                'p',
                's',
                ':',
                '/',
                '/',
                'p',
                '1',
                '.',
                'm',
                'u',
                's',
                'i',
                'c',
                '.',
                '1',
                '2',
                '6',
                '.',
                'n',
                'e',
                't',
                '/',
            ];
            assert(r@ =~= canonical_host_prefix());
            extend_chars(&mut r, path.as_slice());
            string_from_chars(r.as_slice())
        },
        None => url.to_owned(),
    }
}

impl CoverCache {
    /// An empty cache; without a directory no cover is ever cached or used.
    pub fn new(directory: Option<String>) -> (r: Self)
        ensures
            r.directory == directory,
            r.requested_url@ == Seq::<char>::empty(),
            r.path@ == Seq::<char>::empty(),
    {
        CoverCache { directory, requested_url: String::new(), path: String::new() }
    }

    /// Takes in finished downloads and file checks; those for the URL that
    /// is currently wanted set the path.
    pub fn poll(&mut self, results: Vec<CoverResult>)
        ensures
            final(self).directory == old(self).directory,
            final(self).requested_url@ == old(self).requested_url@,
            final(self).path@ == polled_path(old(self).requested_url@, old(self).path@, results@),
    {
        let ghost requested = self.requested_url@;
        let ghost start = self.path@;
        let mut k: usize = 0;
        while k < results.len()
            invariant
                k <= results@.len(),
                self.requested_url@ == requested,
                self.directory == old(self).directory,
                self.path@ == polled_path(requested, start, results@.take(k as int)),
            decreases results@.len() - k,
        {
            assert(results@.take(k + 1).drop_last() =~= results@.take(k as int));
            let result = &results[k];
            if result.url == self.requested_url {
                self.path = result.path.clone();
            }
            k = k + 1;
        }
        assert(results@.take(k as int) =~= results@);
    }

    /// The path of the current cover, after taking in `results`; empty when
    /// there is none (yet).
    pub fn path(&mut self, results: Vec<CoverResult>) -> (r: String)
        ensures
            final(self).directory == old(self).directory,
            final(self).requested_url@ == old(self).requested_url@,
            final(self).path@ == polled_path(old(self).requested_url@, old(self).path@, results@),
            r@ == final(self).path@,
    {
        self.poll(results);
        self.path.clone()
    }

    /// Asks for the cover at `url` (empty: no cover). A new URL clears the
    /// path; a local file is used in place, a remote cover is looked up in
    /// the cache directory and downloaded when it is missing.
    pub fn set_url(&mut self, url: &str, results: Vec<CoverResult>) -> (r: CoverAction)
        ensures
            final(self).directory == old(self).directory,
            ({
                let polled = polled_path(old(self).requested_url@, old(self).path@, results@);
                if url@ == old(self).requested_url@ {
                    &&& final(self).requested_url@ == url@
                    &&& final(self).path@ == polled
                    &&& r is Nothing
                } else {
                    &&& final(self).requested_url@ == url@
                    &&& final(self).path@ == Seq::<char>::empty()
                    &&& requests(old(self).directory, url@, r)
                }
            }),
    {
        self.poll(results);
        let wanted = url.to_owned();
        if wanted == self.requested_url {
            return CoverAction::Nothing;
        }
        self.requested_url = wanted;
        self.path = String::new();
        if url.is_empty() {
            return CoverAction::Nothing;
        }
        let directory = match &self.directory {
            Some(directory) => directory,
            None => {
                return CoverAction::Nothing;
            },
        };
        let chars = chars_of(url);
        let scheme = vec!['f', 'i', 'l', 'e', ':', '/', '/'];
        assert(scheme@ =~= file_scheme());
        if starts_with(chars.as_slice(), scheme.as_slice()) || is_absolute(url) {
            return match local_path(url) {
                Some(path) => CoverAction::UseIfFile { url: url.to_owned(), path },
                None => CoverAction::Nothing,
            };
        }
        let destination = cache_path(directory.as_str(), url);
        CoverAction::FetchUnlessCached { url: url.to_owned(), destination }
    }
}

} // verus!
