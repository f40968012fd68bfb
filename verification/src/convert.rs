//! Cache keys as tags of an OCI reference, and back.
//!
//! A tag may hold letters, digits, `_`, `.` and `-` only, so a key is written
//! in one of two encodings. The custom encoding keeps letters and digits as
//! they are and writes every other character as `_`, its code point in base
//! 64, and `_` again. The other encoding is base32 over the key's bytes.

use crate::codec::{
    base32_dnssec_decode, base32_dnssec_encode, base32_len, decode_limit, decoded, encode_limit,
    encoded, is_base32_dnssec_symbol, lowercase, Alphabet,
};
use crate::error::Error;
use crate::text::{
    alphanumeric, chars_of, is_alphanumeric, push_char, slice_between, string_from_utf8,
};
use std::collections::BTreeMap;
use vstd::prelude::*;
use vstd::std_specs::btree::*;
use vstd::std_specs::iter::IteratorSpec;
use vstd::utf8::{decode_utf8, encode_utf8, valid_utf8};

verus! {

broadcast use {vstd::std_specs::btree::group_btree_axioms, vstd::laws_cmp::group_laws_cmp};

/// The symbol that stands for the base-64 digit `i`: `0-9`, then `a-z`, then
/// `A-Z`, then `-`, then `.`.
pub open spec fn symbol(i: int) -> char {
    if i < 10 {
        (48 + i) as char
    } else if i < 36 {
        (97 + (i - 10)) as char
    } else if i < 62 {
        (65 + (i - 36)) as char
    } else if i == 62 {
        '-'
    } else {
        '.'
    }
}

/// The 64 symbols, in the order of their values.
pub open spec fn symbols() -> Seq<char> {
    Seq::new(64, |i: int| symbol(i))
}

/// The base-64 digit that a symbol stands for.
pub open spec fn symbol_value(c: char) -> Option<int> {
    if '0' <= c && c <= '9' {
        Some(c as int - 48)
    } else if 'a' <= c && c <= 'z' {
        Some(c as int - 97 + 10)
    } else if 'A' <= c && c <= 'Z' {
        Some(c as int - 65 + 36)
    } else if c == '-' {
        Some(62)
    } else if c == '.' {
        Some(63)
    } else {
        None
    }
}

/// `n` in base 64: most significant symbol first, no leading zero, and no
/// symbol at all for zero.
pub open spec fn digits(n: nat) -> Seq<char>
    decreases n,
{
    if n == 0 {
        Seq::empty()
    } else {
        digits(n / 64).push(symbol((n % 64) as int))
    }
}

/// The number that a run of symbols denotes in base 64, if all of them are
/// symbols.
pub open spec fn digits_value(run: Seq<char>) -> Option<nat>
    decreases run.len(),
{
    if run.len() == 0 {
        Some(0nat)
    } else {
        match (digits_value(run.drop_last()), symbol_value(run.last())) {
            (Some(high), Some(low)) => Some((high * 64 + low) as nat),
            _ => None,
        }
    }
}

/// The escaped form of a character: its code point between two markers.
pub open spec fn escaped(c: char) -> Seq<char> {
    seq!['_'] + digits(c as nat) + seq!['_']
}

/// The character that a run of symbols between two markers denotes: the one
/// with that code point, if there is one.
pub open spec fn unescaped(run: Seq<char>) -> Option<char> {
    match digits_value(run) {
        Some(v) => if v <= 0x10FFFF && !(0xD800 <= v && v <= 0xDFFF) {
            Some(v as char)
        } else {
            None
        },
        None => None,
    }
}

/// Whether `c` may stand for itself in a tag.
pub open spec fn is_plain(c: char) -> bool {
    is_alphanumeric(c) || c == '-' || c == '.'
}

/// What one character of a key becomes. Letters and digits stay; `-` and `.`
/// stay unless they come first; everything else is escaped.
pub open spec fn encoded_char(c: char, first: bool) -> Seq<char> {
    if is_alphanumeric(c) || ((c == '-' || c == '.') && !first) {
        seq![c]
    } else {
        escaped(c)
    }
}

/// The custom encoding of a key.
pub open spec fn encoded_key(key: Seq<char>) -> Seq<char>
    decreases key.len(),
{
    if key.len() == 0 {
        Seq::empty()
    } else {
        encoded_key(key.drop_last()) + encoded_char(key.last(), key.len() == 1)
    }
}

/// The index of the first marker at or after `from`, or the length of the tag
/// if there is none.
pub open spec fn next_marker(tag: Seq<char>, from: int) -> int
    decreases tag.len() - from,
{
    if from >= tag.len() {
        tag.len() as int
    } else if tag[from] == '_' {
        from
    } else {
        next_marker(tag, from + 1)
    }
}

/// What the tag decodes to from index `i` on, if that part is well formed.
pub open spec fn decoded_from(tag: Seq<char>, i: int) -> Option<Seq<char>>
    decreases tag.len() - i,
{
    if i < 0 || i >= tag.len() {
        Some(Seq::empty())
    } else if is_plain(tag[i]) {
        match decoded_from(tag, i + 1) {
            Some(rest) => Some(seq![tag[i]] + rest),
            None => None,
        }
    } else if tag[i] == '_' {
        let j = next_marker(tag, i + 1);
        if j >= tag.len() || j <= i {
            None
        } else {
            match (unescaped(tag.subrange(i + 1, j)), decoded_from(tag, j + 1)) {
                (Some(c), Some(rest)) => Some(seq![c] + rest),
                _ => None,
            }
        }
    } else {
        None
    }
}

/// The key that a tag of the custom encoding stands for. There is none if a
/// marker has no partner, if a character between two markers is no symbol, if
/// the number between them is no code point, or if another character occurs.
pub open spec fn decoded_key(tag: Seq<char>) -> Option<Seq<char>> {
    decoded_from(tag, 0)
}

/// Whether `c` may occur in a tag.
pub open spec fn is_tag_char(c: char) -> bool {
    is_alphanumeric(c) || c == '_' || c == '.' || c == '-'
}

/// Whether `tag` is a tag of an OCI reference: 1 to 128 characters out of
/// letters, digits, `_`, `.` and `-`, the first of them not `.` or `-`.
pub open spec fn is_tag(tag: Seq<char>) -> bool {
    &&& 1 <= tag.len() <= 128
    &&& is_tag_char(tag[0]) && tag[0] != '.' && tag[0] != '-'
    &&& forall|i: int| 0 <= i < tag.len() ==> is_tag_char(#[trigger] tag[i])
}

/// `rest` after `prefix`, where there is a rest.
pub open spec fn after(prefix: Seq<char>, rest: Option<Seq<char>>) -> Option<Seq<char>> {
    match rest {
        Some(rest) => Some(prefix + rest),
        None => None,
    }
}

/// Every digit has its symbol, the symbol has that digit for its value, and
/// no symbol is the marker.
pub proof fn lemma_symbol(i: int)
    requires
        0 <= i < 64,
    ensures
        symbol_value(symbol(i)) == Some(i),
        is_plain(symbol(i)),
        symbol(i) != '_',
{
}

/// A character with a value is the symbol of that value.
pub proof fn lemma_symbol_value(c: char)
    ensures
        symbol_value(c) matches Some(v) ==> 0 <= v < 64 && symbol(v) == c,
{
}

/// The base-64 notation of a number denotes that number, and holds symbols
/// only.
pub proof fn lemma_digits(n: nat)
    ensures
        digits_value(digits(n)) == Some(n),
        forall|k: int| 0 <= k < digits(n).len() ==> is_plain(#[trigger] digits(n)[k]),
    decreases n,
{
    if n != 0 {
        lemma_digits(n / 64);
        lemma_symbol((n % 64) as int);
        let run = digits(n);
        assert(run.drop_last() =~= digits(n / 64));
        assert(run.last() == symbol((n % 64) as int));
    }
}

/// Unescaping what stands between the markers of an escaped character gives
/// the character back.
pub proof fn lemma_unescape(c: char)
    ensures
        unescaped(digits(c as nat)) == Some(c),
{
    lemma_digits(c as nat);
    vstd::utf8::char_is_scalar(c);
    vstd::utf8::char_u32_cast(c, c as u32);
}

/// Where no marker stands between `from` and `to`, and one stands at `to`,
/// the search from `from` ends at `to`.
pub proof fn lemma_next_marker(tag: Seq<char>, from: int, to: int)
    requires
        0 <= from <= to <= tag.len(),
        forall|k: int| from <= k < to ==> tag[k] != '_',
        to < tag.len() ==> tag[to] == '_',
    ensures
        next_marker(tag, from) == to,
    decreases to - from,
{
    if from < to {
        lemma_next_marker(tag, from + 1, to);
    }
}

/// The search for a marker ends at or after its start, within the tag, on a
/// marker if within the tag, and passes no marker on its way.
pub proof fn lemma_next_marker_found(tag: Seq<char>, from: int)
    requires
        0 <= from,
    ensures
        from <= next_marker(tag, from) || tag.len() <= from,
        next_marker(tag, from) <= tag.len(),
        next_marker(tag, from) < tag.len() ==> tag[next_marker(tag, from)] == '_',
        forall|k: int| from <= k < next_marker(tag, from) ==> tag[k] != '_',
    decreases tag.len() - from,
{
    if from < tag.len() && tag[from] != '_' {
        lemma_next_marker_found(tag, from + 1);
    }
}

/// Whether `token` is what stands for `c` in a tag of the custom encoding.
pub open spec fn stands_for(token: Seq<char>, c: char) -> bool {
    (is_plain(c) && token == seq![c]) || token == escaped(c)
}

/// Decoding a well-formed tag with one more token after it gives one more
/// character.
pub proof fn lemma_decode_token(tag: Seq<char>, key: Seq<char>, token: Seq<char>, c: char, i: int)
    requires
        0 <= i <= tag.len(),
        decoded_from(tag, i) == Some(key),
        stands_for(token, c),
    ensures
        decoded_from(tag + token, i) == Some(key.push(c)),
    decreases tag.len() - i,
{
    let whole = tag + token;
    if i == tag.len() {
        assert(key =~= Seq::empty());
        if token == escaped(c) {
            let run = digits(c as nat);
            let end: int = i + 1 + run.len() as int;
            lemma_digits(c as nat);
            lemma_unescape(c);
            assert(whole[i] == '_');
            assert forall|k: int| i + 1 <= k < end implies whole[k] != '_' by {
                assert(whole[k] == run[k - i - 1]);
                assert(is_plain(run[k - i - 1]));
            }
            assert(whole[end] == '_');
            lemma_next_marker(whole, i + 1, end);
            assert(whole.subrange(i + 1, end) =~= run);
            assert(decoded_from(whole, end + 1) == Some(Seq::<char>::empty()));
            assert(seq![c] + Seq::<char>::empty() =~= key.push(c));
        } else {
            assert(whole[i] == c);
            assert(decoded_from(whole, i + 1) == Some(Seq::<char>::empty()));
            assert(seq![c] + Seq::<char>::empty() =~= key.push(c));
        }
    } else {
        assert(whole[i] == tag[i]);
        if is_plain(tag[i]) {
            let rest = decoded_from(tag, i + 1).unwrap();
            lemma_decode_token(tag, rest, token, c, i + 1);
            assert(seq![tag[i]] + rest.push(c) =~= (seq![tag[i]] + rest).push(c));
        } else {
            let j = next_marker(tag, i + 1);
            lemma_next_marker_found(tag, i + 1);
            assert forall|k: int| i + 1 <= k < j implies whole[k] != '_' by {
                assert(whole[k] == tag[k]);
            }
            assert(whole[j] == tag[j]);
            lemma_next_marker(whole, i + 1, j);
            assert(whole.subrange(i + 1, j) =~= tag.subrange(i + 1, j));
            let rest = decoded_from(tag, j + 1).unwrap();
            let first = unescaped(tag.subrange(i + 1, j)).unwrap();
            lemma_decode_token(tag, rest, token, c, j + 1);
            assert(seq![first] + rest.push(c) =~= (seq![first] + rest).push(c));
        }
    }
}

/// Decoding the custom encoding of a key gives the key back, whatever the
/// key and however long its tag.
pub proof fn lemma_round_trip(key: Seq<char>)
    ensures
        decoded_key(encoded_key(key)) == Some(key),
    decreases key.len(),
{
    if key.len() > 0 {
        let head = key.drop_last();
        lemma_round_trip(head);
        lemma_decode_token(
            encoded_key(head),
            head,
            encoded_char(key.last(), key.len() == 1),
            key.last(),
            0,
        );
        assert(head.push(key.last()) =~= key);
    }
}

/// Two keys with the same custom encoding are the same key.
pub proof fn lemma_encoding_distinguishes(a: Seq<char>, b: Seq<char>)
    requires
        encoded_key(a) == encoded_key(b),
    ensures
        a == b,
{
    lemma_round_trip(a);
    lemma_round_trip(b);
}

/// The custom encoding of a key holds characters of tags only, is at least
/// as long as the key, and does not begin with `.` or `-`.
pub proof fn lemma_encoded_alphabet(key: Seq<char>)
    ensures
        encoded_key(key).len() >= key.len(),
        forall|i: int| 0 <= i < encoded_key(key).len() ==> is_tag_char(#[trigger] encoded_key(key)[i]),
        key.len() > 0 ==> encoded_key(key)[0] != '.' && encoded_key(key)[0] != '-',
    decreases key.len(),
{
    if key.len() > 0 {
        let head = encoded_key(key.drop_last());
        let token = encoded_char(key.last(), key.len() == 1);
        lemma_encoded_alphabet(key.drop_last());
        lemma_digits(key.last() as nat);
        assert forall|i: int| 0 <= i < token.len() implies is_tag_char(#[trigger] token[i]) by {
            if token == escaped(key.last()) && 0 < i < token.len() - 1 {
                assert(token[i] == digits(key.last() as nat)[i - 1]);
                assert(is_plain(digits(key.last() as nat)[i - 1]));
            }
        }
        assert forall|i: int| 0 <= i < (head + token).len() implies is_tag_char(
            #[trigger] (head + token)[i],
        ) by {
            if i >= head.len() {
                assert((head + token)[i] == token[i - head.len()]);
            }
        }
    }
}

/// The custom encoding of a key is a tag of an OCI reference, unless the key
/// is empty or its encoding is longer than a tag may be.
pub proof fn lemma_encoded_is_tag(key: Seq<char>)
    requires
        key.len() > 0,
        encoded_key(key).len() <= 128,
    ensures
        is_tag(encoded_key(key)),
{
    lemma_encoded_alphabet(key);
}

/// Where a run of symbols denotes a number, each shorter run of its first
/// symbols denotes a number too, the next symbol has a value, and the whole
/// run denotes no less than the two together.
pub proof fn lemma_digits_value_prefix(run: Seq<char>, i: int)
    requires
        0 <= i < run.len(),
        digits_value(run) is Some,
    ensures
        digits_value(run.take(i)) is Some,
        symbol_value(run[i]) is Some,
        digits_value(run.take(i + 1)) == Some(
            (digits_value(run.take(i)).unwrap() * 64 + symbol_value(run[i]).unwrap()) as nat,
        ),
        digits_value(run).unwrap() >= digits_value(run.take(i + 1)).unwrap(),
    decreases run.len(),
{
    let head = run.drop_last();
    lemma_symbol_value(run.last());
    if i == run.len() - 1 {
        assert(run.take(i) =~= head);
        assert(run.take(i + 1) =~= run);
    } else {
        lemma_digits_value_prefix(head, i);
        assert(head.take(i) =~= run.take(i));
        assert(head.take(i + 1) =~= run.take(i + 1));
    }
}

/// The base-64 digit that the symbol with a code point stands for.
pub open spec fn code_value(code: u32) -> Option<int> {
    if 48 <= code && code <= 57 {
        Some(code - 48)
    } else if 97 <= code && code <= 122 {
        Some(code - 97 + 10)
    } else if 65 <= code && code <= 90 {
        Some(code - 65 + 36)
    } else if code == 45 {
        Some(62)
    } else if code == 46 {
        Some(63)
    } else {
        None
    }
}

/// The map from the code point of each symbol to the digit of the symbol.
pub open spec fn symbol_values() -> Map<u32, u32> {
    Map::new(|code: u32| code_value(code) is Some, |code: u32| code_value(code)->0 as u32)
}

/// The value of a symbol is the value of its code point.
pub proof fn lemma_code_value(c: char)
    ensures
        code_value(c as u32) == symbol_value(c),
{
}

/// The tables of the custom encoding: the symbol of each base-64 digit, and
/// the digit of each symbol, by the symbol's code point.
#[derive(Debug)]
pub struct CustomEncoding {
    symbol_table: Vec<char>,
    reverse_table: BTreeMap<u32, u32>,
}

fn symbol_at(i: u8) -> (c: char)
    requires
        i < 64,
    ensures
        c == symbol(i as int),
{
    if i < 10 {
        (48 + i) as char
    } else if i < 36 {
        (97 + (i - 10)) as char
    } else if i < 62 {
        (65 + (i - 36)) as char
    } else if i == 62 {
        '-'
    } else {
        '.'
    }
}

impl Default for CustomEncoding {
    fn default() -> (r: Self)
        ensures
            r.symbols_view() == symbols(),
            r.values_view() == symbol_values(),
    {
        Self::new()
    }
}

impl CustomEncoding {
    #[verifier::type_invariant]
    spec fn well_formed(self) -> bool {
        &&& self.symbol_table@ == symbols()
        &&& self.reverse_table@ == symbol_values()
    }

    /// The symbols of the table, in the order of their values.
    pub closed spec fn symbols_view(self) -> Seq<char> {
        self.symbol_table@
    }

    /// The reverse table: the value of each symbol, by its code point.
    pub closed spec fn values_view(self) -> Map<u32, u32> {
        self.reverse_table@
    }

    /// Builds the two tables: the 64 symbols in the order of their values,
    /// and the value of each symbol by its code point.
    pub fn new() -> (r: CustomEncoding)
        ensures
            r.symbols_view() == symbols(),
            r.values_view() == symbol_values(),
    {
        let mut symbol_table: Vec<char> = Vec::new();
        let mut reverse_table: BTreeMap<u32, u32> = BTreeMap::new();
        let mut i: u8 = 0;
        while i < 64
            invariant
                i <= 64,
                symbol_table@.len() == i,
                forall|k: int| 0 <= k < i ==> #[trigger] symbol_table@[k] == symbol(k),
                forall|code: u32|
                    reverse_table@.dom().contains(code) <==> (code_value(code) matches Some(v) && v
                        < i),
                forall|code: u32|
                    reverse_table@.dom().contains(code) ==> #[trigger] reverse_table@[code]
                        == code_value(code)->0 as u32,
            decreases 64 - i,
        {
            let c = symbol_at(i);
            proof {
                lemma_symbol(i as int);
                lemma_code_value(c);
            }
            symbol_table.push(c);
            reverse_table.insert(c as u32, i as u32);
            i += 1;
        }
        assert(symbol_table@ =~= symbols());
        assert(reverse_table@ =~= symbol_values());
        CustomEncoding { symbol_table, reverse_table }
    }

    /// The 64 symbols, in the order of their values.
    pub fn symbol_table(&self) -> (table: &Vec<char>)
        ensures
            table@ == symbols(),
            table@ == self.symbols_view(),
    {
        proof {
            use_type_invariant(self);
        }
        &self.symbol_table
    }

    /// The value of each symbol, by the symbol's code point.
    pub fn reverse_table(&self) -> (table: &BTreeMap<u32, u32>)
        ensures
            table@ == self.values_view(),
            table@ == symbol_values(),
    {
        proof {
            use_type_invariant(self);
        }
        &self.reverse_table
    }

    /// The value of a symbol, if `c` is one.
    pub fn value_of(&self, c: char) -> (r: Option<u32>)
        ensures
            match symbol_value(c) {
                Some(v) => r == Some(v as u32),
                None => r is None,
            },
    {
        proof {
            use_type_invariant(self);
            lemma_code_value(c);
        }
        let code: u32 = c as u32;
        match self.reverse_table.get(&code) {
            Some(v) => Some(*v),
            None => None,
        }
    }

    /// Writes a key as a tag. Letters and digits stay as they are; `-` and `.`
    /// stay unless they come first; every other character is escaped. The
    /// tag decodes to the key, holds characters of tags only, and does not
    /// begin with `.` or `-`.
    pub fn encode(&self, key: &str) -> (tag: String)
        ensures
            tag@ == encoded_key(key@),
            decoded_key(tag@) == Some(key@),
            forall|i: int| 0 <= i < tag@.len() ==> is_tag_char(#[trigger] tag@[i]),
            key@.len() > 0 ==> tag@.len() > 0 && tag@[0] != '.' && tag@[0] != '-',
    {
        proof {
            lemma_round_trip(key@);
            lemma_encoded_alphabet(key@);
        }
        let mut result = String::new();
        let mut first = true;
        let it = key.chars();
        for c in iter: it
            invariant
                iter.seq() == key@,
                first == (iter.index() == 0),
                result@ == encoded_key(key@.take(iter.index() as int)),
        {
            proof {
                let next = key@.take(iter.index() + 1);
                assert(next.drop_last() =~= key@.take(iter.index() as int));
                assert(next.last() == c);
            }
            if alphanumeric(c) {
                push_char(&mut result, c);
            } else if c == '-' || c == '.' {
                if first {
                    self.encode_char(&mut result, c);
                } else {
                    push_char(&mut result, c);
                }
            } else {
                self.encode_char(&mut result, c);
            }
            first = false;
        }
        assert(key@.take(key@.len() as int) =~= key@);
        result
    }

    /// Appends the escaped form of `c`: a marker, the code point in base 64,
    /// and a marker.
    pub fn encode_char(&self, result: &mut String, c: char)
        ensures
            final(result)@ == old(result)@ + escaped(c),
    {
        proof {
            use_type_invariant(self);
        }
        let ghost start = result@;
        push_char(result, '_');
        let mut n: u32 = c as u32;
        let mut char_code: Vec<char> = Vec::new();
        let base: u32 = self.symbol_table.len() as u32;
        while n != 0
            invariant
                base == 64,
                self.symbol_table@ == symbols(),
                digits(c as nat) == digits(n as nat) + char_code@,
            decreases n,
        {
            let quotient = n / base;
            let remainder = n % base;
            let s = self.symbol_table[remainder as usize];
            proof {
                let high = digits((n / 64) as nat);
                assert(high.push(s) + char_code@ =~= high + char_code@.insert(0, s));
            }
            char_code.insert(0, s);
            n = quotient;
        }
        assert(char_code@ =~= digits(c as nat));
        let mut k: usize = 0;
        while k < char_code.len()
            invariant
                k <= char_code.len(),
                result@ == start.push('_') + char_code@.take(k as int),
            decreases char_code.len() - k,
        {
            push_char(result, char_code[k]);
            assert(char_code@.take(k + 1) =~= char_code@.take(k as int).push(char_code@[k as int]));
            k += 1;
        }
        push_char(result, '_');
        assert(char_code@.take(char_code.len() as int) =~= char_code@);
        assert(result@ =~= start + escaped(c));
    }

    /// Reads a tag as a key. Fails with `InvalidTag` where the tag is not
    /// well formed.
    pub fn decode(&self, tag: &str) -> (r: Result<String, Error>)
        ensures
            match decoded_key(tag@) {
                Some(key) => r matches Ok(s) && s@ == key,
                None => r matches Err(Error::InvalidTag(t)) && t@ == tag@,
            },
    {
        let chars = chars_of(tag);
        let n = chars.len();
        let mut result = String::new();
        let mut i: usize = 0;
        assert(Seq::<char>::empty() + decoded_from(chars@, 0).unwrap() =~= decoded_from(
            chars@,
            0,
        ).unwrap());
        while i < n
            invariant
                i <= n,
                n == chars.len(),
                chars@ == tag@,
                decoded_key(tag@) == after(result@, decoded_from(chars@, i as int)),
            decreases n - i,
        {
            let c = chars[i];
            let ghost before = result@;
            if alphanumeric(c) || c == '-' || c == '.' {
                push_char(&mut result, c);
                proof {
                    let rest = decoded_from(chars@, i + 1);
                    if rest is Some {
                        assert(before.push(c) + rest.unwrap() =~= before + (seq![c]
                            + rest.unwrap()));
                    }
                }
                i += 1;
            } else if c == '_' {
                let mut j: usize = i + 1;
                while j < n && chars[j] != '_'
                    invariant
                        i + 1 <= j <= n,
                        n == chars.len(),
                        forall|k: int| i + 1 <= k < j ==> chars@[k] != '_',
                    decreases n - j,
                {
                    j += 1;
                }
                proof {
                    lemma_next_marker(chars@, i + 1, j as int);
                }
                if j >= n {
                    return Err(Error::InvalidTag(tag.to_owned()));
                }
                let run = slice_between(&chars, i + 1, j);
                match self.decode_char(run.as_slice()) {
                    Some(d) => {
                        push_char(&mut result, d);
                        proof {
                            let rest = decoded_from(chars@, j + 1);
                            if rest is Some {
                                assert(before.push(d) + rest.unwrap() =~= before + (seq![d]
                                    + rest.unwrap()));
                            }
                        }
                    },
                    None => {
                        return Err(Error::InvalidTag(tag.to_owned()));
                    },
                }
                i = j + 1;
            } else {
                return Err(Error::InvalidTag(tag.to_owned()));
            }
        }
        assert(result@ + Seq::<char>::empty() =~= result@);
        Ok(result)
    }

    /// Reads what stands between two markers: the character whose code point
    /// the symbols denote in base 64, if they are symbols and there is such a
    /// character.
    pub fn decode_char(&self, encoded: &[char]) -> (r: Option<char>)
        ensures
            r == unescaped(encoded@),
    {
        proof {
            use_type_invariant(self);
        }
        let base: u32 = self.symbol_table.len() as u32;
        let mut n: u32 = 0;
        let mut i: usize = 0;
        assert(encoded@.take(0) =~= Seq::<char>::empty());
        while i < encoded.len()
            invariant
                base == 64,
                i <= encoded.len(),
                digits_value(encoded@.take(i as int)) == Some(n as nat),
            decreases encoded.len() - i,
        {
            proof {
                if digits_value(encoded@) is Some {
                    lemma_digits_value_prefix(encoded@, i as int);
                }
                lemma_symbol_value(encoded@[i as int]);
                let next = encoded@.take(i + 1);
                assert(next.drop_last() =~= encoded@.take(i as int));
                assert(next.last() == encoded@[i as int]);
            }
            let shifted = match n.checked_mul(base) {
                Some(m) => m,
                None => {
                    return None;
                },
            };
            let low = match self.value_of(encoded[i]) {
                Some(d) => d,
                None => {
                    return None;
                },
            };
            n = match shifted.checked_add(low) {
                Some(m) => m,
                None => {
                    return None;
                },
            };
            i += 1;
        }
        assert(encoded@.take(encoded.len() as int) =~= encoded@);
        char::from_u32(n)
    }
}

/// The key that base32-dnssec text stands for: the decoded bytes read as
/// UTF-8, if the text decodes and the bytes are UTF-8.
pub open spec fn base32_key(text: Seq<u8>) -> Option<Seq<char>> {
    match decoded(Alphabet::Base32Dnssec, text) {
        Ok(bytes) => if valid_utf8(bytes) {
            Some(decode_utf8(bytes))
        } else {
            None
        },
        Err(_) => None,
    }
}

/// The text of a result, where it is a success.
pub open spec fn outcome_text(r: Result<String, Error>) -> Option<Seq<char>> {
    match r {
        Ok(s) => Some(s@),
        Err(_) => None,
    }
}

/// One way of writing a key as a tag.
#[derive(Clone, Copy, Debug, PartialEq, Eq, Structural)]
pub enum TagEncoding {
    /// Letters and digits as they are, everything else escaped.
    Custom,
    /// Base32 over the extended-hex alphabet, in lower case, without padding,
    /// of the key's UTF-8 bytes. Reading does not tell capital from small
    /// letters.
    Base32DNSSEC,
}

impl TagEncoding {
    /// The tag that stands for `key`.
    pub open spec fn tag_of(self, key: Seq<char>) -> Seq<char> {
        match self {
            TagEncoding::Custom => encoded_key(key),
            TagEncoding::Base32DNSSEC => encoded(Alphabet::Base32Dnssec, encode_utf8(key)),
        }
    }

    /// The key that `tag` stands for, if it stands for one.
    pub open spec fn key_of(self, tag: Seq<char>) -> Option<Seq<char>> {
        match self {
            TagEncoding::Custom => decoded_key(tag),
            TagEncoding::Base32DNSSEC => base32_key(encode_utf8(tag)),
        }
    }

    /// Whether `e` is the failure that reading `tag` ends with: `InvalidTag`
    /// with the tag for the custom encoding; for base32 the decoder's own
    /// failure, or `FromUtf8` with the decoded bytes.
    pub open spec fn refuses(self, tag: Seq<char>, e: Error) -> bool {
        match self {
            TagEncoding::Custom => e matches Error::InvalidTag(t) && t@ == tag,
            TagEncoding::Base32DNSSEC => match decoded(Alphabet::Base32Dnssec, encode_utf8(tag)) {
                Ok(bytes) => e matches Error::FromUtf8(b) && b@ == bytes,
                Err(failure) => e == Error::Decode(failure),
            },
        }
    }

    /// Whether a key of `bytes` bytes is within the encoder's limit.
    pub open spec fn takes_key(self, bytes: int) -> bool {
        self is Base32DNSSEC ==> bytes <= encode_limit()
    }

    /// Whether a tag of `bytes` bytes is within the decoder's limit.
    pub open spec fn takes_tag(self, bytes: int) -> bool {
        self is Base32DNSSEC ==> bytes <= decode_limit()
    }

    /// Writes a key as a tag. The tag reads back as the key. It holds
    /// characters of tags only; in base32 it holds only the symbols `0-9a-v`,
    /// one for every five bits of the key's bytes.
    pub fn key_to_tag(&self, key: &str) -> (tag: String)
        requires
            self.takes_key(encode_utf8(key@).len() as int),
        ensures
            tag@ == self.tag_of(key@),
            self.key_of(tag@) == Some(key@),
            forall|i: int| 0 <= i < tag@.len() ==> is_tag_char(#[trigger] tag@[i]),
            self is Base32DNSSEC ==> forall|i: int|
                0 <= i < tag@.len() ==> is_base32_dnssec_symbol(#[trigger] tag@[i]),
            self is Base32DNSSEC ==> tag@.len() == base32_len(encode_utf8(key@).len()),
    {
        match self {
            TagEncoding::Custom => CustomEncoding::new().encode(key),
            TagEncoding::Base32DNSSEC => {
                let tag = base32_dnssec_encode(key.as_bytes());
                proof {
                    vstd::utf8::encode_utf8_valid_utf8(key@);
                    vstd::utf8::encode_utf8_decode_utf8(key@);
                }
                assert forall|i: int| 0 <= i < tag@.len() implies is_tag_char(
                    #[trigger] tag@[i],
                ) by {
                    assert(is_base32_dnssec_symbol(tag@[i]));
                }
                tag
            },
        }
    }

    /// Reads a tag as a key. In base32, the tag with its capital letters
    /// turned into small ones reads the same.
    pub fn tag_to_key(&self, tag: &str) -> (r: Result<String, Error>)
        requires
            self.takes_tag(encode_utf8(tag@).len() as int),
        ensures
            match self.key_of(tag@) {
                Some(key) => r matches Ok(s) && s@ == key,
                None => r matches Err(e) && self.refuses(tag@, e),
            },
            self is Base32DNSSEC ==> outcome_text(r) == base32_key(lowercase(encode_utf8(tag@))),
    {
        match self {
            TagEncoding::Custom => CustomEncoding::new().decode(tag),
            TagEncoding::Base32DNSSEC => {
                match base32_dnssec_decode(tag.as_bytes()) {
                    Ok(bytes) => match string_from_utf8(bytes) {
                        Ok(key) => Ok(key),
                        Err(bytes) => Err(Error::FromUtf8(bytes)),
                    },
                    Err(failure) => Err(Error::Decode(failure)),
                }
            },
        }
    }
}

/// The first key that one of the encodings reads from the tag, in their order.
pub open spec fn first_key(encodings: Seq<TagEncoding>, tag: Seq<char>) -> Option<Seq<char>>
    decreases encodings.len(),
{
    if encodings.len() == 0 {
        None
    } else {
        match encodings[0].key_of(tag) {
            Some(key) => Some(key),
            None => first_key(encodings.skip(1), tag),
        }
    }
}

/// The encoding that tags are written in, and the encodings that are tried
/// next, in their order, when a tag is looked up or read.
#[derive(Clone, Debug)]
pub struct EncodingOptions {
    pub tag_encoding: TagEncoding,
    pub fallback_encodings: Vec<TagEncoding>,
}

impl EncodingOptions {
    /// The primary encoding, then the fallbacks.
    pub open spec fn encodings(self) -> Seq<TagEncoding> {
        seq![self.tag_encoding] + self.fallback_encodings@
    }

    /// Whether a key of `bytes` bytes is within the limit of every encoder.
    pub open spec fn takes_key(self, bytes: int) -> bool {
        forall|i: int|
            0 <= i < self.encodings().len() ==> (#[trigger] self.encodings()[i]).takes_key(bytes)
    }

    /// Whether a tag of `bytes` bytes is within the limit of every decoder.
    pub open spec fn takes_tag(self, bytes: int) -> bool {
        forall|i: int|
            0 <= i < self.encodings().len() ==> (#[trigger] self.encodings()[i]).takes_tag(bytes)
    }

    /// Writes a key as its primary tag and its fallback tags, one for each
    /// fallback encoding and in their order. The primary tag reads back as
    /// the key.
    pub fn key_to_tag(&self, key: &str) -> (tags: (String, Vec<String>))
        requires
            self.takes_key(encode_utf8(key@).len() as int),
        ensures
            tags.0@ == self.tag_encoding.tag_of(key@),
            first_key(self.encodings(), tags.0@) == Some(key@),
            tags.1@.len() == self.fallback_encodings@.len(),
            forall|i: int|
                0 <= i < tags.1@.len() ==> (#[trigger] tags.1@[i])@
                    == self.fallback_encodings@[i].tag_of(key@),
    {
        assert(self.encodings()[0] == self.tag_encoding);
        let main = self.tag_encoding.key_to_tag(key);
        let mut fallbacks: Vec<String> = Vec::new();
        let mut i: usize = 0;
        while i < self.fallback_encodings.len()
            invariant
                i <= self.fallback_encodings.len(),
                self.takes_key(encode_utf8(key@).len() as int),
                fallbacks@.len() == i,
                forall|k: int|
                    0 <= k < i ==> (#[trigger] fallbacks@[k])@
                        == self.fallback_encodings@[k].tag_of(key@),
            decreases self.fallback_encodings.len() - i,
        {
            assert(self.encodings()[i + 1] == self.fallback_encodings@[i as int]);
            let tag = self.fallback_encodings[i].key_to_tag(key);
            fallbacks.push(tag);
            i += 1;
        }
        (main, fallbacks)
    }

    /// Reads a tag as a key: by the primary encoding, then by each fallback
    /// in order. The first success is the result. Where all fail, the
    /// failures come back together, one for each encoding and in their order.
    pub fn tag_to_key(&self, tag: &str) -> (r: Result<String, Error>)
        requires
            self.takes_tag(encode_utf8(tag@).len() as int),
        ensures
            match first_key(self.encodings(), tag@) {
                Some(key) => r matches Ok(s) && s@ == key,
                None => r matches Err(Error::TagToKey(errors)) && errors@.len()
                    == self.encodings().len() && forall|i: int|
                    0 <= i < errors@.len() ==> self.encodings()[i].refuses(
                        tag@,
                        #[trigger] errors@[i],
                    ),
            },
    {
        let mut errors: Vec<Error> = Vec::new();
        let total = self.fallback_encodings.len();
        let ghost encodings = self.encodings();
        assert(encodings[0] == self.tag_encoding);
        match self.tag_encoding.tag_to_key(tag) {
            Ok(key) => {
                return Ok(key);
            },
            Err(e) => {
                errors.push(e);
            },
        }
        let mut j: usize = 0;
        while j < total
            invariant
                j <= total,
                total == self.fallback_encodings.len(),
                encodings == self.encodings(),
                self.takes_tag(encode_utf8(tag@).len() as int),
                errors@.len() == j + 1,
                first_key(encodings, tag@) == first_key(encodings.skip(j + 1), tag@),
                forall|k: int|
                    0 <= k < j + 1 ==> encodings[k].refuses(tag@, #[trigger] errors@[k]),
            decreases total - j,
        {
            let encoding = self.fallback_encodings[j];
            assert(encoding == encodings[j + 1]);
            proof {
                let rest = encodings.skip(j + 1);
                assert(rest[0] == encoding);
                assert(rest.skip(1) =~= encodings.skip(j + 2));
            }
            match encoding.tag_to_key(tag) {
                Ok(key) => {
                    return Ok(key);
                },
                Err(e) => {
                    errors.push(e);
                },
            }
            j += 1;
        }
        assert(encodings.skip(total + 1).len() == 0);
        Err(Error::TagToKey(errors))
    }
}

} // verus!
