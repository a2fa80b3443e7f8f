//! Identifiers for code generated from a protocol description: reserved
//! words are escaped, and snake_case names become PascalCase type names.
use vstd::prelude::*;

verus! {

/// The characters that `char::to_uppercase` gives for `c`.
pub uninterp spec fn upper_of(c: char) -> Seq<char>;

/// The characters that `str::to_lowercase` gives for `s`.
pub uninterp spec fn lower_of(s: Seq<char>) -> Seq<char>;

/// Relies on `char::to_uppercase`, collected into a string: the upper-case
/// mapping of one character, which depends on the character alone.
#[verifier::external_body]
fn char_to_uppercase(c: char) -> (r: String)
    ensures
        r@ == upper_of(c),
{
    c.to_uppercase().collect()
}

/// Relies on `str::to_lowercase`: the lower-case mapping of a string, which
/// depends on its characters alone. An empty string stays empty.
#[verifier::external_body]
fn str_to_lowercase(s: &str) -> (r: String)
    ensures
        r@ == lower_of(s@),
        s@.len() == 0 ==> r@.len() == 0,
{
    s.to_lowercase()
}

/// The characters that `str::to_uppercase` gives for `s`.
pub uninterp spec fn upper_str_of(s: Seq<char>) -> Seq<char>;

/// Relies on `str::to_uppercase`: the upper-case mapping of a string, which
/// depends on its characters alone. An empty string stays empty.
#[verifier::external_body]
fn str_to_uppercase(s: &str) -> (r: String)
    ensures
        r@ == upper_str_of(s@),
        s@.len() == 0 ==> r@.len() == 0,
{
    s.to_uppercase()
}

/// Relies on `String`'s `FromIterator<char>`: the string of these characters.
#[verifier::external_body]
fn string_from_chars(chars: &[char]) -> (r: String)
    ensures
        r@ == chars@,
{
    chars.iter().collect()
}

/// The words that generated code may not use as identifiers.
pub open spec fn reserved_words() -> Seq<Seq<char>> {
    seq![
        "move"@, "type"@, "ref"@, "box"@, "impl"@, "trait"@, "struct"@, "enum"@, "fn"@, "let"@,
        "mut"@, "const"@, "static"@, "if"@, "else"@, "while"@, "for"@, "loop"@, "match"@,
        "where"@, "use"@, "mod"@, "pub"@, "return"@, "break"@, "continue"@,
    ]
}

/// A name with `_` appended when it is a reserved word.
pub open spec fn escaped(name: Seq<char>) -> Seq<char> {
    if reserved_words().contains(name) {
        name.push('_')
    } else {
        name
    }
}

/// The pieces of a name between underscores.
pub open spec fn words(s: Seq<char>) -> Seq<Seq<char>>
    decreases s.len(),
{
    if s.len() == 0 {
        seq![Seq::empty()]
    } else {
        let w = words(s.drop_last());
        if s.last() == '_' {
            w.push(Seq::empty())
        } else {
            w.update(w.len() - 1, w.last().push(s.last()))
        }
    }
}

/// A word with its first character upper-cased and the rest lower-cased.
pub open spec fn capitalized(w: Seq<char>) -> Seq<char> {
    if w.len() == 0 {
        Seq::empty()
    } else {
        upper_of(w[0]) + lower_of(w.drop_first())
    }
}

/// The capitalised words, joined.
pub open spec fn joined(ws: Seq<Seq<char>>) -> Seq<char>
    decreases ws.len(),
{
    if ws.len() == 0 {
        Seq::empty()
    } else {
        joined(ws.drop_last()) + capitalized(ws.last())
    }
}

/// The PascalCase form of a snake_case name.
pub open spec fn pascal_case(name: Seq<char>) -> Seq<char> {
    joined(words(escaped(name)))
}

proof fn lemma_words_nonempty(s: Seq<char>)
    ensures
        words(s).len() >= 1,
    decreases s.len(),
{
    if s.len() > 0 {
        lemma_words_nonempty(s.drop_last());
    }
}

fn chars_of(s: &str) -> (r: Vec<char>)
    ensures
        r@ == s@,
{
    let n = s.unicode_len();
    let mut r: Vec<char> = Vec::new();
    let mut i: usize = 0;
    while i < n
        invariant
            n == s@.len(),
            i <= n,
            r@ == s@.take(i as int),
        decreases n - i,
    {
        r.push(s.get_char(i));
        i = i + 1;
        assert(r@ =~= s@.take(i as int));
    }
    assert(s@.take(n as int) =~= s@);
    r
}

fn chars_equal(a: &[char], b: &[char]) -> (r: bool)
    ensures
        r == (a@ == b@),
{
    if a.len() != b.len() {
        return false;
    }
    let mut i: usize = 0;
    while i < a.len()
        invariant
            i <= a@.len(),
            a@.len() == b@.len(),
            forall|j: int| 0 <= j < i ==> a@[j] == b@[j],
        decreases a@.len() - i,
    {
        if a[i] != b[i] {
            return false;
        }
        i = i + 1;
    }
    assert(a@ =~= b@);
    true
}

fn reserved_word_list() -> (r: Vec<&'static str>)
    ensures
        r@.len() == reserved_words().len(),
        forall|i: int| 0 <= i < r@.len() ==> #[trigger] r@[i]@ == reserved_words()[i],
{
    let r = vec![
        "move", "type", "ref", "box", "impl", "trait", "struct", "enum", "fn", "let", "mut",
        "const", "static", "if", "else", "while", "for", "loop", "match", "where", "use", "mod",
        "pub", "return", "break", "continue",
    ];
    r
}

fn escape_chars(name: &str) -> (r: Vec<char>)
    ensures
        r@ == escaped(name@),
{
    let mut chars = chars_of(name);
    let words = reserved_word_list();
    let mut k: usize = 0;
    while k < words.len()
        invariant
            k <= words@.len(),
            chars@ == name@,
            words@.len() == reserved_words().len(),
            forall|i: int| 0 <= i < words@.len() ==> #[trigger] words@[i]@ == reserved_words()[i],
            forall|i: int| 0 <= i < k ==> reserved_words()[i] != name@,
        decreases words@.len() - k,
    {
        let w = chars_of(words[k]);
        if chars_equal(w.as_slice(), chars.as_slice()) {
            assert(reserved_words()[k as int] == name@);
            assert(reserved_words().contains(name@));
            chars.push('_');
            return chars;
        }
        k = k + 1;
    }
    assert(!reserved_words().contains(name@));
    chars
}

/// The name, with `_` appended when it is a reserved word.
pub fn escape_rust_keyword(name: &str) -> (r: String)
    ensures
        r@ == escaped(name@),
{
    let chars = escape_chars(name);
    string_from_chars(chars.as_slice())
}

fn capitalize(w: &Vec<char>) -> (r: Vec<char>)
    ensures
        r@ == capitalized(w@),
{
    if w.len() == 0 {
        return Vec::new();
    }
    let first = char_to_uppercase(w[0]);
    let mut r = chars_of(first.as_str());
    let rest = string_from_chars(vstd::slice::slice_subrange(w.as_slice(), 1, w.len()));
    let lower = str_to_lowercase(rest.as_str());
    let mut tail = chars_of(lower.as_str());
    r.append(&mut tail);
    assert(w@.subrange(1, w@.len() as int) =~= w@.drop_first());
    r
}

/// The PascalCase type name of a snake_case protocol name, after escaping:
/// each piece between underscores gets an upper-case first character and
/// lower-case rest.
pub fn snake_to_pascal_case(s: &str) -> (r: String)
    ensures
        r@ == pascal_case(s@),
{
    let chars = escape_chars(s);
    let ghost e = chars@;
    let mut done: Vec<char> = Vec::new();
    let mut cur: Vec<char> = Vec::new();
    let ghost mut complete: Seq<Seq<char>> = Seq::empty();
    let mut i: usize = 0;
    assert(e.take(0) =~= Seq::<char>::empty());
    assert(words(e.take(0)) =~= complete.push(cur@));
    while i < chars.len()
        invariant
            i <= chars@.len(),
            e == chars@,
            words(e.take(i as int)) == complete.push(cur@),
            done@ == joined(complete),
        decreases chars@.len() - i,
    {
        let c = chars[i];
        assert(e.take(i + 1).drop_last() =~= e.take(i as int));
        assert(e.take(i + 1).last() == c);
        if c == '_' {
            let mut cap = capitalize(&cur);
            proof {
                assert(complete.push(cur@).drop_last() =~= complete);
                assert(joined(complete.push(cur@)) == joined(complete) + capitalized(cur@));
                complete = complete.push(cur@);
            }
            done.append(&mut cap);
            cur = Vec::new();
            assert(words(e.take(i + 1)) =~= complete.push(cur@));
        } else {
            cur.push(c);
            assert(words(e.take(i + 1)) =~= complete.push(cur@));
        }
        i = i + 1;
    }
    let mut cap = capitalize(&cur);
    proof {
        assert(e.take(i as int) =~= e);
        assert(complete.push(cur@).drop_last() =~= complete);
    }
    done.append(&mut cap);
    string_from_chars(done.as_slice())
}

/// The name of the constant for one entry of an interface's enum:
/// `<INTERFACE>_<ENUM>_<ENTRY>`, upper-cased.
pub open spec fn enum_constant(interface: Seq<char>, enum_name: Seq<char>, entry: Seq<char>) -> Seq<char> {
    upper_str_of(interface) + seq!['_'] + upper_str_of(enum_name) + seq!['_'] + upper_str_of(entry)
}

/// The name of the constant for one entry of an interface's enum.
pub fn enum_constant_name(interface: &str, enum_name: &str, entry: &str) -> (r: String)
    ensures
        r@ == enum_constant(interface@, enum_name@, entry@),
{
    let mut out = chars_of(str_to_uppercase(interface).as_str());
    out.push('_');
    let mut e = chars_of(str_to_uppercase(enum_name).as_str());
    out.append(&mut e);
    out.push('_');
    let mut n = chars_of(str_to_uppercase(entry).as_str());
    out.append(&mut n);
    string_from_chars(out.as_slice())
}

/// The name of a request's argument type, or of an interface's trait:
/// the PascalCase forms of the interface and the request, joined.
pub fn request_type_name(interface: &str, request: &str) -> (r: String)
    ensures
        r@ == pascal_case(interface@) + pascal_case(request@),
{
    let a = snake_to_pascal_case(interface);
    let b = snake_to_pascal_case(request);
    let mut out = chars_of(a.as_str());
    let mut tail = chars_of(b.as_str());
    out.append(&mut tail);
    string_from_chars(out.as_slice())
}

/// The name of the writer method that sends an event: `<interface>_<event>`.
pub fn event_method_name(interface: &str, event: &str) -> (r: String)
    ensures
        r@ == interface@ + seq!['_'] + event@,
{
    let mut out = chars_of(interface);
    out.push('_');
    let mut tail = chars_of(event);
    out.append(&mut tail);
    string_from_chars(out.as_slice())
}

} // verus!
