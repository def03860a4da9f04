//! Names in the assembly symbol namespace, the hash that places a variable in
//! the stack frame, the labels of string literals, the size of stack frames,
//! and the 32- and 64-bit names of the x86_64 registers.

use vstd::prelude::*;
use vstd::string::StringSliceAdditionalSpecFns;
use crate::text::text_is;

verus! {

broadcast use vstd::string::axiom_spec_iter;

/// The hash of a name's bytes: from 5381, each byte is added to 31 times the
/// hash so far, modulo 2^64.
pub open spec fn name_hash(bs: Seq<u8>) -> u64
    decreases bs.len(),
{
    if bs.len() == 0 {
        5381
    } else {
        name_hash(bs.drop_last()).wrapping_mul(31).wrapping_add(bs.last() as u64)
    }
}

/// The hash that maps a variable name to its stack offset.
pub fn simple_hash(name: &str) -> (h: u64)
    ensures
        h == name_hash(name.spec_bytes()),
{
    let bytes = name.as_bytes();
    let mut hash: u64 = 5381;
    let mut i: usize = 0;
    while i < bytes.len()
        invariant
            i <= bytes@.len(),
            bytes@ == name.spec_bytes(),
            hash == name_hash(bytes@.take(i as int)),
        decreases bytes.len() - i,
    {
        assert(bytes@.take(i + 1).drop_last() =~= bytes@.take(i as int));
        hash = hash.wrapping_mul(31).wrapping_add(bytes[i] as u64);
        i = i + 1;
    }
    assert(bytes@.take(bytes@.len() as int) =~= bytes@);
    hash
}

/// A character as it stands in a symbol: ASCII letters, digits and `_` stay,
/// any other character becomes `_`.
pub open spec fn symbol_char(c: char) -> char {
    if ('a' <= c && c <= 'z') || ('A' <= c && c <= 'Z') || ('0' <= c && c <= '9') || c == '_' {
        c
    } else {
        '_'
    }
}

/// A name in the assembly symbol namespace.
pub open spec fn sanitized(s: Seq<char>) -> Seq<char> {
    s.map_values(|c: char| symbol_char(c))
}

/// Sanitizes a function or variable name for the assembly symbol namespace.
pub fn sanitize_name(name: &str) -> (r: String)
    ensures
        r@ == sanitized(name@),
{
    let mut r = String::new();
    for c in it: name.chars()
        invariant
            it.seq() == name@,
            r@ == sanitized(name@.take(it.index() as int)),
    {
        let d = if ('a' <= c && c <= 'z') || ('A' <= c && c <= 'Z') || ('0' <= c && c <= '9') || c == '_' {
            c
        } else {
            '_'
        };
        crate::text::push_char(&mut r, d);
        assert(sanitized(name@.take(it.index() + 1)) =~= sanitized(name@.take(it.index() as int)).push(d));
    }
    assert(name@.take(name@.len() as int) =~= name@);
    r
}

/// The 32-bit name of a register; other names stay as they are.
pub open spec fn reg32_name(n: Seq<char>) -> Seq<char> {
    if n == "eax"@ {
        "eax"@
    } else if n == "ecx"@ {
        "ecx"@
    } else if n == "edx"@ {
        "edx"@
    } else if n == "esi"@ {
        "esi"@
    } else if n == "edi"@ {
        "edi"@
    } else if n == "r8d"@ {
        "r8d"@
    } else if n == "r9d"@ {
        "r9d"@
    } else if n == "rax"@ {
        "eax"@
    } else if n == "rcx"@ {
        "ecx"@
    } else if n == "rdx"@ {
        "edx"@
    } else if n == "rsi"@ {
        "esi"@
    } else if n == "rdi"@ {
        "edi"@
    } else if n == "r8"@ {
        "r8d"@
    } else if n == "r9"@ {
        "r9d"@
    } else if n == "r10"@ {
        "r10d"@
    } else if n == "r11"@ {
        "r11d"@
    } else if n == "r12"@ {
        "r12d"@
    } else if n == "r13"@ {
        "r13d"@
    } else if n == "r14"@ {
        "r14d"@
    } else if n == "r15"@ {
        "r15d"@
    } else {
        n
    }
}

/// Converts a register name to its 32-bit counterpart.
pub fn reg_to_32(name: &str) -> (r: &str)
    ensures
        r@ == reg32_name(name@),
{
    if text_is(name, "eax") {
        "eax"
    } else if text_is(name, "ecx") {
        "ecx"
    } else if text_is(name, "edx") {
        "edx"
    } else if text_is(name, "esi") {
        "esi"
    } else if text_is(name, "edi") {
        "edi"
    } else if text_is(name, "r8d") {
        "r8d"
    } else if text_is(name, "r9d") {
        "r9d"
    } else if text_is(name, "rax") {
        "eax"
    } else if text_is(name, "rcx") {
        "ecx"
    } else if text_is(name, "rdx") {
        "edx"
    } else if text_is(name, "rsi") {
        "esi"
    } else if text_is(name, "rdi") {
        "edi"
    } else if text_is(name, "r8") {
        "r8d"
    } else if text_is(name, "r9") {
        "r9d"
    } else if text_is(name, "r10") {
        "r10d"
    } else if text_is(name, "r11") {
        "r11d"
    } else if text_is(name, "r12") {
        "r12d"
    } else if text_is(name, "r13") {
        "r13d"
    } else if text_is(name, "r14") {
        "r14d"
    } else if text_is(name, "r15") {
        "r15d"
    } else {
        name
    }
}

/// The 64-bit name of a register; other names stay as they are.
pub open spec fn reg64_name(n: Seq<char>) -> Seq<char> {
    if n == "eax"@ {
        "rax"@
    } else if n == "ecx"@ {
        "rcx"@
    } else if n == "edx"@ {
        "rdx"@
    } else if n == "esi"@ {
        "rsi"@
    } else if n == "edi"@ {
        "rdi"@
    } else if n == "r8d"@ {
        "r8"@
    } else if n == "r9d"@ {
        "r9"@
    } else if n == "rax"@ {
        "rax"@
    } else if n == "rcx"@ {
        "rcx"@
    } else if n == "rdx"@ {
        "rdx"@
    } else if n == "rsi"@ {
        "rsi"@
    } else if n == "rdi"@ {
        "rdi"@
    } else if n == "r8"@ {
        "r8"@
    } else if n == "r9"@ {
        "r9"@
    } else if n == "r10"@ {
        "r10"@
    } else if n == "r11"@ {
        "r11"@
    } else if n == "r12"@ {
        "r12"@
    } else if n == "r13"@ {
        "r13"@
    } else if n == "r14"@ {
        "r14"@
    } else if n == "r15"@ {
        "r15"@
    } else if n == "r10d"@ {
        "r10"@
    } else if n == "r11d"@ {
        "r11"@
    } else if n == "r12d"@ {
        "r12"@
    } else if n == "r13d"@ {
        "r13"@
    } else if n == "r14d"@ {
        "r14"@
    } else if n == "r15d"@ {
        "r15"@
    } else {
        n
    }
}

/// Converts a register name to its 64-bit counterpart.
pub fn reg_to_64(name: &str) -> (r: &str)
    ensures
        r@ == reg64_name(name@),
{
    if text_is(name, "eax") {
        "rax"
    } else if text_is(name, "ecx") {
        "rcx"
    } else if text_is(name, "edx") {
        "rdx"
    } else if text_is(name, "esi") {
        "rsi"
    } else if text_is(name, "edi") {
        "rdi"
    } else if text_is(name, "r8d") {
        "r8"
    } else if text_is(name, "r9d") {
        "r9"
    } else if text_is(name, "rax") {
        "rax"
    } else if text_is(name, "rcx") {
        "rcx"
    } else if text_is(name, "rdx") {
        "rdx"
    } else if text_is(name, "rsi") {
        "rsi"
    } else if text_is(name, "rdi") {
        "rdi"
    } else if text_is(name, "r8") {
        "r8"
    } else if text_is(name, "r9") {
        "r9"
    } else if text_is(name, "r10") {
        "r10"
    } else if text_is(name, "r11") {
        "r11"
    } else if text_is(name, "r12") {
        "r12"
    } else if text_is(name, "r13") {
        "r13"
    } else if text_is(name, "r14") {
        "r14"
    } else if text_is(name, "r15") {
        "r15"
    } else if text_is(name, "r10d") {
        "r10"
    } else if text_is(name, "r11d") {
        "r11"
    } else if text_is(name, "r12d") {
        "r12"
    } else if text_is(name, "r13d") {
        "r13"
    } else if text_is(name, "r14d") {
        "r14"
    } else if text_is(name, "r15d") {
        "r15"
    } else {
        name
    }
}

/// The index of the last occurrence of `c` in `s`, if any.
pub open spec fn last_index_of(s: Seq<char>, c: char) -> Option<int>
    decreases s.len(),
{
    if s.len() == 0 {
        None
    } else if s.last() == c {
        Some(s.len() - 1)
    } else {
        last_index_of(s.drop_last(), c)
    }
}

/// The index of the last occurrence of `_fn_` in `s`, if any.
pub open spec fn last_fn_marker(s: Seq<char>) -> Option<int>
    decreases s.len(),
{
    if s.len() < 4 {
        None
    } else if s.subrange(s.len() - 4, s.len() as int) == seq!['_', 'f', 'n', '_'] {
        Some(s.len() - 4)
    } else {
        last_fn_marker(s.drop_last())
    }
}

/// Whether a character is a hexadecimal digit.
pub open spec fn is_hex_char(c: char) -> bool {
    ('0' <= c && c <= '9') || ('a' <= c && c <= 'f') || ('A' <= c && c <= 'F')
}

/// The name a closure was given, from its unique name: a unique name ends in
/// `_` and four hexadecimal digits; `base_fn_XXXX` gives `base` (the name is
/// cut before the last `_fn_` of what precedes the digits, their `_`
/// included), and `base_XXXX` gives `base` unless `base` is exactly `fn_`.
pub open spec fn closure_base(s: Seq<char>) -> Option<Seq<char>> {
    match last_index_of(s, '_') {
        None => None,
        Some(p) => {
            let suffix = s.subrange(p + 1, s.len() as int);
            let base = s.subrange(0, p);
            if suffix.len() == 4 && (forall|i: int| 0 <= i < 4 ==> is_hex_char(#[trigger] suffix[i])) {
                match last_fn_marker(s.subrange(0, p + 1)) {
                    Some(q) => Some(s.subrange(0, q)),
                    None => if !(base.len() >= 3 && base.subrange(0, 3) == seq!['f', 'n', '_'])
                        || base.len() > 3 {
                        Some(base)
                    } else {
                        None
                    },
                }
            } else {
                None
            }
        },
    }
}

/// The characters of a string.
fn chars_of(s: &str) -> (r: Vec<char>)
    ensures
        r@ == s@,
{
    let mut r: Vec<char> = Vec::new();
    for c in it: s.chars()
        invariant
            it.seq() == s@,
            r@ == s@.take(it.index() as int),
    {
        r.push(c);
        assert(r@ =~= s@.take(it.index() + 1));
    }
    assert(s@.take(s@.len() as int) =~= s@);
    r
}

/// The string of characters `cs[lo..hi]`.
fn string_of_range(cs: &Vec<char>, lo: usize, hi: usize) -> (r: String)
    requires
        lo <= hi <= cs@.len(),
    ensures
        r@ == cs@.subrange(lo as int, hi as int),
{
    let mut r = String::new();
    let mut i = lo;
    while i < hi
        invariant
            lo <= i <= hi,
            hi <= cs@.len(),
            r@ == cs@.subrange(lo as int, i as int),
        decreases hi - i,
    {
        crate::text::push_char(&mut r, cs[i]);
        assert(r@ =~= cs@.subrange(lo as int, i + 1));
        i = i + 1;
    }
    r
}

/// The index of the last `c` among the first `n` characters.
fn last_index_in(cs: &Vec<char>, n: usize, c: char) -> (r: Option<usize>)
    requires
        n <= cs@.len(),
    ensures
        match last_index_of(cs@.take(n as int), c) {
            None => r is None,
            Some(p) => r == Some(p as usize) && 0 <= p < n,
        },
{
    let mut k = n;
    while k > 0
        invariant
            k <= n <= cs@.len(),
            last_index_of(cs@.take(n as int), c) == last_index_of(cs@.take(k as int), c),
        decreases k,
    {
        assert(cs@.take(k as int).drop_last() =~= cs@.take(k - 1));
        if cs[k - 1] == c {
            return Some(k - 1);
        }
        k = k - 1;
    }
    None
}

/// The index of the last `_fn_` among the first `n` characters.
fn last_fn_marker_in(cs: &Vec<char>, n: usize) -> (r: Option<usize>)
    requires
        n <= cs@.len(),
    ensures
        match last_fn_marker(cs@.take(n as int)) {
            None => r is None,
            Some(q) => r == Some(q as usize) && 0 <= q && q + 4 <= n,
        },
{
    let mut k = n;
    while k >= 4
        invariant
            k <= n <= cs@.len(),
            last_fn_marker(cs@.take(n as int)) == last_fn_marker(cs@.take(k as int)),
        decreases k,
    {
        let ghost t = cs@.take(k as int);
        assert(t.subrange(k - 4, k as int) =~= cs@.subrange(k - 4, k as int));
        if cs[k - 4] == '_' && cs[k - 3] == 'f' && cs[k - 2] == 'n' && cs[k - 1] == '_' {
            assert(t.subrange(k - 4, k as int) =~= seq!['_', 'f', 'n', '_']);
            return Some(k - 4);
        }
        assert(t.subrange(k - 4, k as int) != seq!['_', 'f', 'n', '_']) by {
            let w = seq!['_', 'f', 'n', '_'];
            if t.subrange(k - 4, k as int) == w {
                assert(t.subrange(k - 4, k as int)[0] == w[0]);
                assert(t.subrange(k - 4, k as int)[1] == w[1]);
                assert(t.subrange(k - 4, k as int)[2] == w[2]);
                assert(t.subrange(k - 4, k as int)[3] == w[3]);
            }
        }
        assert(t.drop_last() =~= cs@.take(k - 1));
        k = k - 1;
    }
    None
}

/// Whether a character is a hexadecimal digit.
fn hex_char(c: char) -> (b: bool)
    ensures
        b == is_hex_char(c),
{
    ('0' <= c && c <= '9') || ('a' <= c && c <= 'f') || ('A' <= c && c <= 'F')
}

/// The name a closure was given, from its unique name (`base_XXXX` or
/// `base_fn_XXXX`, where `XXXX` are hexadecimal digits), if it has that form.
pub fn closure_original_name(unique: &str) -> (r: Option<String>)
    ensures
        match closure_base(unique@) {
            None => r is None,
            Some(b) => r matches Some(x) && x@ == b,
        },
{
    let cs = chars_of(unique);
    let n = cs.len();
    assert(cs@.take(n as int) =~= cs@);
    let pos = match last_index_in(&cs, n, '_') {
        None => return None,
        Some(p) => p,
    };
    let ghost suffix = cs@.subrange(pos + 1, n as int);
    if n - (pos + 1) != 4 {
        return None;
    }
    let all_hex = hex_char(cs[pos + 1]) && hex_char(cs[pos + 2]) && hex_char(cs[pos + 3]) && hex_char(cs[pos + 4]);
    assert(all_hex == (forall|i: int| 0 <= i < 4 ==> is_hex_char(#[trigger] suffix[i]))) by {
        assert(suffix[0] == cs@[pos + 1]);
        assert(suffix[1] == cs@[pos + 2]);
        assert(suffix[2] == cs@[pos + 3]);
        assert(suffix[3] == cs@[pos + 4]);
    }
    if !all_hex {
        return None;
    }
    let ghost base = cs@.subrange(0, pos as int);
    assert(cs@.take(pos + 1) =~= cs@.subrange(0, pos + 1));
    match last_fn_marker_in(&cs, pos + 1) {
        Some(q) => {
            Some(string_of_range(&cs, 0, q))
        },
        None => {
            let starts_fn = pos >= 3 && cs[0] == 'f' && cs[1] == 'n' && cs[2] == '_';
            assert(starts_fn == (base.len() >= 3 && base.subrange(0, 3) == seq!['f', 'n', '_'])) by {
                if base.len() >= 3 {
                    let w = seq!['f', 'n', '_'];
                    if base.subrange(0, 3) == w {
                        assert(base.subrange(0, 3)[0] == w[0]);
                        assert(base.subrange(0, 3)[1] == w[1]);
                        assert(base.subrange(0, 3)[2] == w[2]);
                    }
                    if starts_fn {
                        assert(base.subrange(0, 3) =~= w);
                    }
                }
            }
            if !starts_fn || pos > 3 {
                Some(string_of_range(&cs, 0, pos))
            } else {
                None
            }
        },
    }
}

/// Whether a byte is an ASCII letter or digit.
pub open spec fn is_alnum_byte(b: u8) -> bool {
    (48 <= b <= 57) || (65 <= b <= 90) || (97 <= b <= 122)
}

/// The uppercase hexadecimal digit of `d` (below 16).
pub open spec fn upper_hex_char(d: nat) -> char {
    if d < 10 {
        crate::text::digit_char(d)
    } else if d == 10 {
        'A'
    } else if d == 11 {
        'B'
    } else if d == 12 {
        'C'
    } else if d == 13 {
        'D'
    } else if d == 14 {
        'E'
    } else {
        'F'
    }
}

/// The label text of one byte of a string literal: the byte itself when it is
/// an ASCII letter or digit, else `_` and its two uppercase hexadecimal digits.
pub open spec fn label_piece(b: u8) -> Seq<char> {
    if is_alnum_byte(b) {
        seq![b as char]
    } else {
        seq!['_', upper_hex_char((b / 16) as nat), upper_hex_char((b % 16) as nat)]
    }
}

/// The label of a string literal with bytes `bs`: `.str_` and the pieces of
/// its bytes.
pub open spec fn literal_label(bs: Seq<u8>) -> Seq<char>
    decreases bs.len(),
{
    if bs.len() == 0 {
        ".str_"@
    } else {
        literal_label(bs.drop_last()) + label_piece(bs.last())
    }
}

fn upper_hex_digit(d: u8) -> (c: char)
    requires
        d < 16,
    ensures
        c == upper_hex_char(d as nat),
{
    if d < 10 {
        if d == 0 { '0' } else if d == 1 { '1' } else if d == 2 { '2' } else if d == 3 { '3' }
        else if d == 4 { '4' } else if d == 5 { '5' } else if d == 6 { '6' } else if d == 7 { '7' }
        else if d == 8 { '8' } else { '9' }
    } else if d == 10 {
        'A'
    } else if d == 11 {
        'B'
    } else if d == 12 {
        'C'
    } else if d == 13 {
        'D'
    } else if d == 14 {
        'E'
    } else {
        'F'
    }
}

/// The label of a string literal in the data section.
pub fn string_label(s: &str) -> (r: String)
    ensures
        r@ == literal_label(s.spec_bytes()),
{
    let bytes = s.as_bytes();
    let mut out = crate::text::string_of(".str_");
    let mut i: usize = 0;
    while i < bytes.len()
        invariant
            i <= bytes@.len(),
            bytes@ == s.spec_bytes(),
            out@ == literal_label(bytes@.take(i as int)),
        decreases bytes.len() - i,
    {
        let b = bytes[i];
        let ghost before = out@;
        if (48 <= b && b <= 57) || (65 <= b && b <= 90) || (97 <= b && b <= 122) {
            crate::text::push_char(&mut out, b as char);
        } else {
            crate::text::push_char(&mut out, '_');
            crate::text::push_char(&mut out, upper_hex_digit(b / 16));
            crate::text::push_char(&mut out, upper_hex_digit(b % 16));
        }
        assert(bytes@.take(i + 1).drop_last() =~= bytes@.take(i as int));
        assert(out@ =~= before + label_piece(b));
        i = i + 1;
    }
    assert(bytes@.take(bytes@.len() as int) =~= bytes@);
    out
}

/// The frame size for a function of `node_count` nodes: eight bytes for each
/// node and eight more, rounded up to a multiple of 16, and at least 256.
pub open spec fn frame_size(node_count: nat) -> nat {
    let rounded = ((node_count + 8) * 8 + 15) / 16 * 16;
    if rounded < 256 {
        256
    } else {
        rounded as nat
    }
}

/// The frame size for a function of `node_count` nodes.
pub fn frame_size_for(node_count: usize) -> (r: usize)
    requires
        (node_count + 8) * 8 + 15 <= usize::MAX,
    ensures
        r == frame_size(node_count as nat),
{
    let bytes = (node_count + 8) * 8;
    let sum = bytes + 15;
    let rounded = sum & !15usize;
    assert(sum & !15usize == sum / 16 * 16) by (bit_vector);
    if rounded < 256 {
        256
    } else {
        rounded
    }
}

/// Each general-purpose register's name, taken to its 32-bit name and back
/// to 64 bits, is itself again.
pub proof fn law_register_round_trip()
    ensures
        reg64_name(reg32_name("rax"@)) == "rax"@,
        reg64_name(reg32_name("rcx"@)) == "rcx"@,
        reg64_name(reg32_name("rdx"@)) == "rdx"@,
        reg64_name(reg32_name("rsi"@)) == "rsi"@,
        reg64_name(reg32_name("rdi"@)) == "rdi"@,
        reg64_name(reg32_name("r8"@)) == "r8"@,
        reg64_name(reg32_name("r9"@)) == "r9"@,
        reg64_name(reg32_name("r10"@)) == "r10"@,
        reg64_name(reg32_name("r11"@)) == "r11"@,
        reg64_name(reg32_name("r12"@)) == "r12"@,
        reg64_name(reg32_name("r13"@)) == "r13"@,
        reg64_name(reg32_name("r14"@)) == "r14"@,
        reg64_name(reg32_name("r15"@)) == "r15"@,
{
    reveal_strlit("eax");
    assert("eax"@.len() == 3);
    assert("eax"@[0] == 'e');
    assert("eax"@[1] == 'a');
    assert("eax"@[2] == 'x');
    reveal_strlit("ecx");
    assert("ecx"@.len() == 3);
    assert("ecx"@[0] == 'e');
    assert("ecx"@[1] == 'c');
    assert("ecx"@[2] == 'x');
    reveal_strlit("edx");
    assert("edx"@.len() == 3);
    assert("edx"@[0] == 'e');
    assert("edx"@[1] == 'd');
    assert("edx"@[2] == 'x');
    reveal_strlit("esi");
    assert("esi"@.len() == 3);
    assert("esi"@[0] == 'e');
    assert("esi"@[1] == 's');
    assert("esi"@[2] == 'i');
    reveal_strlit("edi");
    assert("edi"@.len() == 3);
    assert("edi"@[0] == 'e');
    assert("edi"@[1] == 'd');
    assert("edi"@[2] == 'i');
    reveal_strlit("r8d");
    assert("r8d"@.len() == 3);
    assert("r8d"@[0] == 'r');
    assert("r8d"@[1] == '8');
    assert("r8d"@[2] == 'd');
    reveal_strlit("r9d");
    assert("r9d"@.len() == 3);
    assert("r9d"@[0] == 'r');
    assert("r9d"@[1] == '9');
    assert("r9d"@[2] == 'd');
    reveal_strlit("rax");
    assert("rax"@.len() == 3);
    assert("rax"@[0] == 'r');
    assert("rax"@[1] == 'a');
    assert("rax"@[2] == 'x');
    reveal_strlit("rcx");
    assert("rcx"@.len() == 3);
    assert("rcx"@[0] == 'r');
    assert("rcx"@[1] == 'c');
    assert("rcx"@[2] == 'x');
    reveal_strlit("rdx");
    assert("rdx"@.len() == 3);
    assert("rdx"@[0] == 'r');
    assert("rdx"@[1] == 'd');
    assert("rdx"@[2] == 'x');
    reveal_strlit("rsi");
    assert("rsi"@.len() == 3);
    assert("rsi"@[0] == 'r');
    assert("rsi"@[1] == 's');
    assert("rsi"@[2] == 'i');
    reveal_strlit("rdi");
    assert("rdi"@.len() == 3);
    assert("rdi"@[0] == 'r');
    assert("rdi"@[1] == 'd');
    assert("rdi"@[2] == 'i');
    reveal_strlit("r8");
    assert("r8"@.len() == 2);
    assert("r8"@[0] == 'r');
    assert("r8"@[1] == '8');
    reveal_strlit("r9");
    assert("r9"@.len() == 2);
    assert("r9"@[0] == 'r');
    assert("r9"@[1] == '9');
    reveal_strlit("r10");
    assert("r10"@.len() == 3);
    assert("r10"@[0] == 'r');
    assert("r10"@[1] == '1');
    assert("r10"@[2] == '0');
    reveal_strlit("r11");
    assert("r11"@.len() == 3);
    assert("r11"@[0] == 'r');
    assert("r11"@[1] == '1');
    assert("r11"@[2] == '1');
    reveal_strlit("r12");
    assert("r12"@.len() == 3);
    assert("r12"@[0] == 'r');
    assert("r12"@[1] == '1');
    assert("r12"@[2] == '2');
    reveal_strlit("r13");
    assert("r13"@.len() == 3);
    assert("r13"@[0] == 'r');
    assert("r13"@[1] == '1');
    assert("r13"@[2] == '3');
    reveal_strlit("r14");
    assert("r14"@.len() == 3);
    assert("r14"@[0] == 'r');
    assert("r14"@[1] == '1');
    assert("r14"@[2] == '4');
    reveal_strlit("r15");
    assert("r15"@.len() == 3);
    assert("r15"@[0] == 'r');
    assert("r15"@[1] == '1');
    assert("r15"@[2] == '5');
    reveal_strlit("r10d");
    assert("r10d"@.len() == 4);
    assert("r10d"@[0] == 'r');
    assert("r10d"@[1] == '1');
    assert("r10d"@[2] == '0');
    assert("r10d"@[3] == 'd');
    reveal_strlit("r11d");
    assert("r11d"@.len() == 4);
    assert("r11d"@[0] == 'r');
    assert("r11d"@[1] == '1');
    assert("r11d"@[2] == '1');
    assert("r11d"@[3] == 'd');
    reveal_strlit("r12d");
    assert("r12d"@.len() == 4);
    assert("r12d"@[0] == 'r');
    assert("r12d"@[1] == '1');
    assert("r12d"@[2] == '2');
    assert("r12d"@[3] == 'd');
    reveal_strlit("r13d");
    assert("r13d"@.len() == 4);
    assert("r13d"@[0] == 'r');
    assert("r13d"@[1] == '1');
    assert("r13d"@[2] == '3');
    assert("r13d"@[3] == 'd');
    reveal_strlit("r14d");
    assert("r14d"@.len() == 4);
    assert("r14d"@[0] == 'r');
    assert("r14d"@[1] == '1');
    assert("r14d"@[2] == '4');
    assert("r14d"@[3] == 'd');
    reveal_strlit("r15d");
    assert("r15d"@.len() == 4);
    assert("r15d"@[0] == 'r');
    assert("r15d"@[1] == '1');
    assert("r15d"@[2] == '5');
    assert("r15d"@[3] == 'd');
}


/// The pieces of the bytes `bs`, read from the front.
pub open spec fn label_pieces(bs: Seq<u8>) -> Seq<char>
    decreases bs.len(),
{
    if bs.len() == 0 {
        seq![]
    } else {
        label_piece(bs[0]) + label_pieces(bs.drop_first())
    }
}

proof fn lemma_label_pieces_push(bs: Seq<u8>, b: u8)
    ensures
        label_pieces(bs.push(b)) == label_pieces(bs) + label_piece(b),
    decreases bs.len(),
{
    if bs.len() == 0 {
        assert(bs.push(b).drop_first() =~= Seq::<u8>::empty());
        assert(label_pieces(Seq::<u8>::empty()) == Seq::<char>::empty());
        assert(label_pieces(bs.push(b)) == label_piece(bs.push(b)[0]) + label_pieces(bs.push(b).drop_first()));
        assert(label_pieces(bs.push(b)) =~= label_piece(b));
        assert(label_pieces(bs) == Seq::<char>::empty());
    } else {
        assert(bs.push(b).drop_first() =~= bs.drop_first().push(b));
        lemma_label_pieces_push(bs.drop_first(), b);
        assert(label_pieces(bs.push(b)) =~= label_pieces(bs) + label_piece(b));
    }
}

proof fn lemma_literal_label_front(bs: Seq<u8>)
    ensures
        literal_label(bs) == ".str_"@ + label_pieces(bs),
    decreases bs.len(),
{
    if bs.len() > 0 {
        lemma_literal_label_front(bs.drop_last());
        lemma_label_pieces_push(bs.drop_last(), bs.last());
        assert(bs.drop_last().push(bs.last()) =~= bs);
        assert(literal_label(bs) =~= ".str_"@ + label_pieces(bs));
    } else {
        assert(literal_label(bs) =~= ".str_"@ + label_pieces(bs));
    }
}

proof fn lemma_upper_hex_injective(x: nat, y: nat)
    requires
        x < 16,
        y < 16,
        upper_hex_char(x) == upper_hex_char(y),
    ensures
        x == y,
{
}

proof fn lemma_label_pieces_injective(a: Seq<u8>, b: Seq<u8>)
    requires
        label_pieces(a) == label_pieces(b),
    ensures
        a == b,
    decreases a.len(),
{
    if a.len() == 0 {
        if b.len() > 0 {
            assert(label_pieces(b).len() >= label_piece(b[0]).len());
        }
        assert(a =~= b);
    } else if b.len() == 0 {
        assert(label_pieces(a).len() >= label_piece(a[0]).len());
    } else {
        let pa = label_piece(a[0]);
        let pb = label_piece(b[0]);
        let ta = label_pieces(a);
        let tb = label_pieces(b);
        assert(ta[0] == pa[0]);
        assert(tb[0] == pb[0]);
        if is_alnum_byte(a[0]) && is_alnum_byte(b[0]) {
            assert(a[0] == b[0]);
        } else if !is_alnum_byte(a[0]) && !is_alnum_byte(b[0]) {
            assert(ta[1] == pa[1] && ta[2] == pa[2]);
            assert(tb[1] == pb[1] && tb[2] == pb[2]);
            lemma_upper_hex_injective((a[0] / 16) as nat, (b[0] / 16) as nat);
            lemma_upper_hex_injective((a[0] % 16) as nat, (b[0] % 16) as nat);
            assert(a[0] == b[0]);
        } else {
            assert(false);
        }
        let k = pa.len() as int;
        assert(label_pieces(a.drop_first()) =~= ta.subrange(k, ta.len() as int));
        assert(label_pieces(b.drop_first()) =~= tb.subrange(k, tb.len() as int));
        lemma_label_pieces_injective(a.drop_first(), b.drop_first());
        assert(a =~= seq![a[0]] + a.drop_first());
        assert(b =~= seq![b[0]] + b.drop_first());
    }
}

/// Distinct string literals get distinct labels: the label of a literal
/// determines its bytes.
pub proof fn law_string_label_injective(a: Seq<u8>, b: Seq<u8>)
    requires
        literal_label(a) == literal_label(b),
    ensures
        a == b,
{
    reveal_strlit(".str_");
    lemma_literal_label_front(a);
    lemma_literal_label_front(b);
    let la = literal_label(a);
    let lb = literal_label(b);
    assert(label_pieces(a) =~= la.subrange(5, la.len() as int));
    assert(label_pieces(b) =~= lb.subrange(5, lb.len() as int));
    lemma_label_pieces_injective(a, b);
}

} // verus!
