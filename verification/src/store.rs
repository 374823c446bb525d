//! Object-store records and the pieces of the pipeline that compute
//! over them: rendering a listing as the JSON document the execution
//! filter reads, selecting the objects to pull and their local paths,
//! and deriving the storage keys of the files to push back.

use vstd::prelude::*;
use vstd::string::StringExecFns;
use crate::text::push_char;
use crate::text::chars_of;
use crate::pattern::KeyPattern;
use crate::pattern::spec_any_matches;
use crate::pattern::any_matches;

verus! {

/// The owner of a stored object, as the store reports it.
pub struct OwnerRecord {
    pub display_name: Option<String>,
    pub id: Option<String>,
}

/// One object of a store listing. Everything but the size is
/// optional; the timestamp is carried as its rendered text.
pub struct ObjectRecord {
    pub checksum_algorithm: Option<Vec<String>>,
    pub e_tag: Option<String>,
    pub key: Option<String>,
    pub last_modified: Option<String>,
    pub owner: Option<OwnerRecord>,
    pub size: i64,
    pub storage_class: Option<String>,
}

/// What one character contributes to a JSON string literal: quote,
/// backslash and control characters are escaped as JSON asks, any
/// other character stands for itself.
pub open spec fn json_escape_char(c: char) -> Seq<char> {
    if c == '"' {
        ("\\\"")@
    } else if c == '\\' {
        ("\\\\")@
    } else if c == '\u{8}' {
        ("\\b")@
    } else if c == '\u{c}' {
        ("\\f")@
    } else if c == '\n' {
        ("\\n")@
    } else if c == '\r' {
        ("\\r")@
    } else if c == '\t' {
        ("\\t")@
    } else if c == '\u{0}' {
        ("\\u0000")@
    } else if c == '\u{1}' {
        ("\\u0001")@
    } else if c == '\u{2}' {
        ("\\u0002")@
    } else if c == '\u{3}' {
        ("\\u0003")@
    } else if c == '\u{4}' {
        ("\\u0004")@
    } else if c == '\u{5}' {
        ("\\u0005")@
    } else if c == '\u{6}' {
        ("\\u0006")@
    } else if c == '\u{7}' {
        ("\\u0007")@
    } else if c == '\u{b}' {
        ("\\u000b")@
    } else if c == '\u{e}' {
        ("\\u000e")@
    } else if c == '\u{f}' {
        ("\\u000f")@
    } else if c == '\u{10}' {
        ("\\u0010")@
    } else if c == '\u{11}' {
        ("\\u0011")@
    } else if c == '\u{12}' {
        ("\\u0012")@
    } else if c == '\u{13}' {
        ("\\u0013")@
    } else if c == '\u{14}' {
        ("\\u0014")@
    } else if c == '\u{15}' {
        ("\\u0015")@
    } else if c == '\u{16}' {
        ("\\u0016")@
    } else if c == '\u{17}' {
        ("\\u0017")@
    } else if c == '\u{18}' {
        ("\\u0018")@
    } else if c == '\u{19}' {
        ("\\u0019")@
    } else if c == '\u{1a}' {
        ("\\u001a")@
    } else if c == '\u{1b}' {
        ("\\u001b")@
    } else if c == '\u{1c}' {
        ("\\u001c")@
    } else if c == '\u{1d}' {
        ("\\u001d")@
    } else if c == '\u{1e}' {
        ("\\u001e")@
    } else if c == '\u{1f}' {
        ("\\u001f")@
    } else {
        seq![c]
    }
}

/// Appends the escape of one character.
fn append_escape_char(out: &mut String, c: char)
    ensures
        final(out)@ == old(out)@ + json_escape_char(c),
{
    if c == '"' {
        out.append("\\\"");
    } else if c == '\\' {
        out.append("\\\\");
    } else if c == '\u{8}' {
        out.append("\\b");
    } else if c == '\u{c}' {
        out.append("\\f");
    } else if c == '\n' {
        out.append("\\n");
    } else if c == '\r' {
        out.append("\\r");
    } else if c == '\t' {
        out.append("\\t");
    } else if c == '\u{0}' {
        out.append("\\u0000");
    } else if c == '\u{1}' {
        out.append("\\u0001");
    } else if c == '\u{2}' {
        out.append("\\u0002");
    } else if c == '\u{3}' {
        out.append("\\u0003");
    } else if c == '\u{4}' {
        out.append("\\u0004");
    } else if c == '\u{5}' {
        out.append("\\u0005");
    } else if c == '\u{6}' {
        out.append("\\u0006");
    } else if c == '\u{7}' {
        out.append("\\u0007");
    } else if c == '\u{b}' {
        out.append("\\u000b");
    } else if c == '\u{e}' {
        out.append("\\u000e");
    } else if c == '\u{f}' {
        out.append("\\u000f");
    } else if c == '\u{10}' {
        out.append("\\u0010");
    } else if c == '\u{11}' {
        out.append("\\u0011");
    } else if c == '\u{12}' {
        out.append("\\u0012");
    } else if c == '\u{13}' {
        out.append("\\u0013");
    } else if c == '\u{14}' {
        out.append("\\u0014");
    } else if c == '\u{15}' {
        out.append("\\u0015");
    } else if c == '\u{16}' {
        out.append("\\u0016");
    } else if c == '\u{17}' {
        out.append("\\u0017");
    } else if c == '\u{18}' {
        out.append("\\u0018");
    } else if c == '\u{19}' {
        out.append("\\u0019");
    } else if c == '\u{1a}' {
        out.append("\\u001a");
    } else if c == '\u{1b}' {
        out.append("\\u001b");
    } else if c == '\u{1c}' {
        out.append("\\u001c");
    } else if c == '\u{1d}' {
        out.append("\\u001d");
    } else if c == '\u{1e}' {
        out.append("\\u001e");
    } else if c == '\u{1f}' {
        out.append("\\u001f");
    } else {
        push_char(out, c);
        proof {
            assert(old(out)@.push(c) =~= old(out)@ + seq![c]);
        }
    }
}

/// A whole character sequence escaped for a JSON string literal.
pub open spec fn json_escaped(s: Seq<char>) -> Seq<char>
    decreases s.len(),
{
    if s.len() == 0 {
        Seq::empty()
    } else {
        json_escaped(s.drop_last()) + json_escape_char(s.last())
    }
}

/// Appends the escaped characters.
fn append_escaped(out: &mut String, cs: &Vec<char>)
    ensures
        final(out)@ == old(out)@ + json_escaped(cs@),
{
    let ghost base = out@;
    let mut i: usize = 0;
    proof {
        assert(base + json_escaped(cs@.take(0)) =~= base);
    }
    while i < cs.len()
        invariant
            i <= cs@.len(),
            out@ == base + json_escaped(cs@.take(i as int)),
        decreases cs@.len() - i,
    {
        append_escape_char(out, cs[i]);
        i = i + 1;
        proof {
            let t = cs@.take(i as int);
            assert(t.drop_last() =~= cs@.take(i - 1));
            assert(t.last() == cs@[i - 1]);
            assert((base + json_escaped(cs@.take(i - 1))) + json_escape_char(cs@[i - 1]) =~= base
                + (json_escaped(cs@.take(i - 1)) + json_escape_char(cs@[i - 1])));
        }
    }
    proof {
        assert(cs@.take(cs@.len() as int) =~= cs@);
    }
}

/// A JSON string literal: the escaped characters between quotes.
pub open spec fn json_string(s: Seq<char>) -> Seq<char> {
    seq!['"'] + json_escaped(s) + seq!['"']
}

/// Appends the JSON string literal for `s`.
fn append_json_string(out: &mut String, s: &str)
    ensures
        final(out)@ == old(out)@ + json_string(s@),
{
    let ghost base = out@;
    let cs = chars_of(s);
    push_char(out, '"');
    proof {
        assert(out@ =~= base + seq!['"']);
    }
    append_escaped(out, &cs);
    push_char(out, '"');
    proof {
        assert(out@ =~= base + (seq!['"'] + json_escaped(s@) + seq!['"']));
    }
}

/// The character of one decimal digit.
pub open spec fn digit_char(d: nat) -> char {
    if d == 0 {
        '0'
    } else if d == 1 {
        '1'
    } else if d == 2 {
        '2'
    } else if d == 3 {
        '3'
    } else if d == 4 {
        '4'
    } else if d == 5 {
        '5'
    } else if d == 6 {
        '6'
    } else if d == 7 {
        '7'
    } else if d == 8 {
        '8'
    } else {
        '9'
    }
}

/// The decimal digits of a natural number, most significant first.
pub open spec fn dec_digits(n: nat) -> Seq<char>
    decreases n,
{
    if n < 10 {
        seq![digit_char(n)]
    } else {
        dec_digits(n / 10).push(digit_char(n % 10))
    }
}

/// The decimal rendering of an integer, with a leading `-` when
/// negative.
pub open spec fn json_int(n: int) -> Seq<char> {
    if n < 0 {
        seq!['-'] + dec_digits((-n) as nat)
    } else {
        dec_digits(n as nat)
    }
}

/// The character of one digit value.
fn digit_of(d: u64) -> (c: char)
    requires
        d < 10,
    ensures
        c == digit_char(d as nat),
{
    if d == 0 {
        '0'
    } else if d == 1 {
        '1'
    } else if d == 2 {
        '2'
    } else if d == 3 {
        '3'
    } else if d == 4 {
        '4'
    } else if d == 5 {
        '5'
    } else if d == 6 {
        '6'
    } else if d == 7 {
        '7'
    } else if d == 8 {
        '8'
    } else {
        '9'
    }
}

/// Appends the decimal digits of `m`.
fn append_dec_digits(out: &mut String, m: u64)
    ensures
        final(out)@ == old(out)@ + dec_digits(m as nat),
    decreases m,
{
    if m < 10 {
        push_char(out, digit_of(m));
        proof {
            assert(old(out)@.push(digit_char(m as nat)) =~= old(out)@ + seq![
                digit_char(m as nat),
            ]);
        }
    } else {
        append_dec_digits(out, m / 10);
        push_char(out, digit_of(m % 10));
        proof {
            assert((old(out)@ + dec_digits((m / 10) as nat)).push(digit_char((m % 10) as nat))
                =~= old(out)@ + dec_digits((m / 10) as nat).push(digit_char((m % 10) as nat)));
        }
    }
}

/// Appends the decimal rendering of `n`.
fn append_json_int(out: &mut String, n: i64)
    ensures
        final(out)@ == old(out)@ + json_int(n as int),
{
    if n >= 0 {
        append_dec_digits(out, n as u64);
    } else {
        push_char(out, '-');
        let m: u64 = ((-(n + 1)) as u64) + 1;
        proof {
            assert(m as int == -(n as int));
        }
        append_dec_digits(out, m);
        proof {
            assert(old(out)@.push('-') + dec_digits(m as nat) =~= old(out)@ + (seq!['-']
                + dec_digits(m as nat)));
        }
    }
}

/// The pieces joined with a comma between each two.
pub open spec fn join_comma(parts: Seq<Seq<char>>) -> Seq<char>
    decreases parts.len(),
{
    if parts.len() == 0 {
        Seq::empty()
    } else if parts.len() == 1 {
        parts[0]
    } else {
        parts[0] + seq![','] + join_comma(parts.skip(1))
    }
}

/// How the comma join grows when one piece is appended.
proof fn lemma_join_comma_push(parts: Seq<Seq<char>>, q: Seq<char>)
    ensures
        join_comma(parts.push(q)) == if parts.len() == 0 {
            q
        } else {
            join_comma(parts) + seq![','] + q
        },
    decreases parts.len(),
{
    let u = parts.push(q);
    if parts.len() == 0 {
        assert(u.len() == 1 && u[0] == q);
    } else if parts.len() == 1 {
        assert(u.len() == 2);
        assert(u[0] == parts[0]);
        assert(u.skip(1) =~= seq![q]);
        assert(join_comma(u.skip(1)) == q);
    } else {
        assert(u[0] == parts[0]);
        assert(u.skip(1) =~= parts.skip(1).push(q));
        lemma_join_comma_push(parts.skip(1), q);
        assert(parts[0] + seq![','] + (join_comma(parts.skip(1)) + seq![','] + q) =~= (parts[0]
            + seq![','] + join_comma(parts.skip(1))) + seq![','] + q);
    }
}

/// Appends the given pieces joined with commas.
fn append_joined(out: &mut String, fields: &Vec<String>)
    ensures
        final(out)@ == old(out)@ + join_comma(fields@.map_values(|f: String| f@)),
{
    let ghost base = out@;
    let ghost fv = fields@.map_values(|f: String| f@);
    let mut i: usize = 0;
    proof {
        assert(fv.take(0) =~= Seq::<Seq<char>>::empty());
    }
    while i < fields.len()
        invariant
            i <= fields@.len(),
            fv == fields@.map_values(|f: String| f@),
            out@ == base + join_comma(fv.take(i as int)),
        decreases fields@.len() - i,
    {
        proof {
            assert(fv.take(i + 1) =~= fv.take(i as int).push(fv[i as int]));
            lemma_join_comma_push(fv.take(i as int), fv[i as int]);
        }
        if i > 0 {
            push_char(out, ',');
        }
        out.append(fields[i].as_str());
        proof {
            assert(fv[i as int] == fields@[i as int]@);
            if i == 0 {
                assert(out@ =~= base + join_comma(fv.take(i + 1)));
            } else {
                assert(out@ =~= base + (join_comma(fv.take(i as int)) + seq![','] + fv[i as int]));
            }
        }
        i = i + 1;
    }
    proof {
        assert(fv.take(fields@.len() as int) =~= fv);
    }
}

/// Each string of a list rendered as a JSON string literal.
pub open spec fn json_strings(items: Seq<Seq<char>>) -> Seq<Seq<char>> {
    items.map_values(|s: Seq<char>| json_string(s))
}

/// A JSON array of string literals.
pub open spec fn json_of_string_array(items: Seq<Seq<char>>) -> Seq<char> {
    seq!['['] + join_comma(json_strings(items)) + seq![']']
}

/// Appends a JSON array holding the given strings.
fn append_string_array(out: &mut String, items: &Vec<String>)
    ensures
        final(out)@ == old(out)@ + json_of_string_array(items@.map_values(|s: String| s@)),
{
    let ghost base = out@;
    let ghost iv = items@.map_values(|s: String| s@);
    let mut rendered: Vec<String> = Vec::new();
    let mut i: usize = 0;
    proof {
        assert(rendered@.map_values(|f: String| f@) =~= json_strings(iv.take(0)));
    }
    while i < items.len()
        invariant
            i <= items@.len(),
            iv == items@.map_values(|s: String| s@),
            rendered@.map_values(|f: String| f@) == json_strings(iv.take(i as int)),
        decreases items@.len() - i,
    {
        let mut f = String::new();
        append_json_string(&mut f, items[i].as_str());
        let ghost prev = rendered@.map_values(|f: String| f@);
        rendered.push(f);
        i = i + 1;
        proof {
            assert(rendered@.map_values(|f: String| f@) =~= prev.push(json_string(iv[i - 1])));
            assert(iv.take(i as int) =~= iv.take(i - 1).push(iv[i - 1]));
            assert(json_strings(iv.take(i as int)) =~= json_strings(iv.take(i - 1)).push(
                json_string(iv[i - 1]),
            ));
        }
    }
    proof {
        assert(iv.take(items@.len() as int) =~= iv);
    }
    push_char(out, '[');
    proof {
        assert(out@ =~= base + seq!['[']);
    }
    append_joined(out, &rendered);
    push_char(out, ']');
    proof {
        assert(out@ =~= base + (seq!['['] + join_comma(json_strings(iv)) + seq![']']));
    }
}

/// The rendered fields of an owner object, present fields only.
pub open spec fn owner_fields(o: OwnerRecord) -> Seq<Seq<char>> {
    let f0 = Seq::<Seq<char>>::empty();
    let f1 = if o.display_name is Some {
        f0.push(("\"DisplayName\":")@ + json_string((o.display_name->0)@))
    } else {
        f0
    };
    let f2 = if o.id is Some {
        f1.push(("\"ID\":")@ + json_string((o.id->0)@))
    } else {
        f1
    };
    f2
}

/// The JSON object for an owner record.
pub open spec fn json_of_owner(o: OwnerRecord) -> Seq<char> {
    seq!['{'] + join_comma(owner_fields(o)) + seq!['}']
}

/// Renders an owner record as JSON.
fn owner_json(o: &OwnerRecord) -> (out: String)
    ensures
        out@ == json_of_owner(*o),
{
    let mut fields: Vec<String> = Vec::new();
    let ghost mut gf = Seq::<Seq<char>>::empty();
    if let Some(name) = &o.display_name {
        let mut f = String::new();
        f.append("\"DisplayName\":");
        append_json_string(&mut f, name.as_str());
        fields.push(f);
        proof {
            gf = gf.push(("\"DisplayName\":")@ + json_string(name@));
        }
    }
    proof {
        assert(fields@.map_values(|f: String| f@) =~= gf);
    }
    if let Some(id) = &o.id {
        let mut f = String::new();
        f.append("\"ID\":");
        append_json_string(&mut f, id.as_str());
        fields.push(f);
        proof {
            gf = gf.push(("\"ID\":")@ + json_string(id@));
        }
    }
    proof {
        assert(fields@.map_values(|f: String| f@) =~= gf);
        assert(gf == owner_fields(*o));
    }
    let mut out = String::new();
    push_char(&mut out, '{');
    append_joined(&mut out, &fields);
    push_char(&mut out, '}');
    proof {
        assert(out@ =~= seq!['{'] + join_comma(owner_fields(*o)) + seq!['}']);
    }
    out
}

/// The rendered fields of an object record: present fields only, in
/// a fixed order, with the size always present.
pub open spec fn object_fields(r: ObjectRecord) -> Seq<Seq<char>> {
    let f0 = Seq::<Seq<char>>::empty();
    let f1 = if r.checksum_algorithm is Some {
        f0.push(
            ("\"ChecksumAlgorithm\":")@ + json_of_string_array(
                (r.checksum_algorithm->0)@.map_values(|s: String| s@),
            ),
        )
    } else {
        f0
    };
    let f2 = if r.e_tag is Some {
        f1.push(("\"ETag\":")@ + json_string((r.e_tag->0)@))
    } else {
        f1
    };
    let f3 = if r.key is Some {
        f2.push(("\"Key\":")@ + json_string((r.key->0)@))
    } else {
        f2
    };
    let f4 = if r.last_modified is Some {
        f3.push(("\"LastModified\":")@ + json_string((r.last_modified->0)@))
    } else {
        f3
    };
    let f5 = if r.owner is Some {
        f4.push(("\"Owner\":")@ + json_of_owner(r.owner->0))
    } else {
        f4
    };
    let f6 = f5.push(("\"Size\":")@ + json_int(r.size as int));
    let f7 = if r.storage_class is Some {
        f6.push(("\"StorageClass\":")@ + json_string((r.storage_class->0)@))
    } else {
        f6
    };
    f7
}

/// The JSON object for one listed object.
pub open spec fn json_of_object(r: ObjectRecord) -> Seq<char> {
    seq!['{'] + join_comma(object_fields(r)) + seq!['}']
}

/// Renders one object record as JSON.
fn object_json(r: &ObjectRecord) -> (out: String)
    ensures
        out@ == json_of_object(*r),
{
    let mut fields: Vec<String> = Vec::new();
    let ghost mut gf = Seq::<Seq<char>>::empty();
    if let Some(algs) = &r.checksum_algorithm {
        let mut f = String::new();
        f.append("\"ChecksumAlgorithm\":");
        append_string_array(&mut f, algs);
        fields.push(f);
        proof {
            gf = gf.push(
                ("\"ChecksumAlgorithm\":")@ + json_of_string_array(
                    algs@.map_values(|s: String| s@),
                ),
            );
        }
    }
    proof {
        assert(fields@.map_values(|f: String| f@) =~= gf);
    }
    if let Some(tag) = &r.e_tag {
        let mut f = String::new();
        f.append("\"ETag\":");
        append_json_string(&mut f, tag.as_str());
        fields.push(f);
        proof {
            gf = gf.push(("\"ETag\":")@ + json_string(tag@));
        }
    }
    proof {
        assert(fields@.map_values(|f: String| f@) =~= gf);
    }
    if let Some(key) = &r.key {
        let mut f = String::new();
        f.append("\"Key\":");
        append_json_string(&mut f, key.as_str());
        fields.push(f);
        proof {
            gf = gf.push(("\"Key\":")@ + json_string(key@));
        }
    }
    proof {
        assert(fields@.map_values(|f: String| f@) =~= gf);
    }
    if let Some(lm) = &r.last_modified {
        let mut f = String::new();
        f.append("\"LastModified\":");
        append_json_string(&mut f, lm.as_str());
        fields.push(f);
        proof {
            gf = gf.push(("\"LastModified\":")@ + json_string(lm@));
        }
    }
    proof {
        assert(fields@.map_values(|f: String| f@) =~= gf);
    }
    if let Some(ow) = &r.owner {
        let mut f = String::new();
        f.append("\"Owner\":");
        let oj = owner_json(ow);
        f.append(oj.as_str());
        fields.push(f);
        proof {
            gf = gf.push(("\"Owner\":")@ + json_of_owner(*ow));
        }
    }
    proof {
        assert(fields@.map_values(|f: String| f@) =~= gf);
    }
    let mut f = String::new();
    f.append("\"Size\":");
    append_json_int(&mut f, r.size);
    fields.push(f);
    proof {
        gf = gf.push(("\"Size\":")@ + json_int(r.size as int));
        assert(fields@.map_values(|f: String| f@) =~= gf);
    }
    if let Some(sc) = &r.storage_class {
        let mut f = String::new();
        f.append("\"StorageClass\":");
        append_json_string(&mut f, sc.as_str());
        fields.push(f);
        proof {
            gf = gf.push(("\"StorageClass\":")@ + json_string(sc@));
        }
    }
    proof {
        assert(fields@.map_values(|f: String| f@) =~= gf);
        assert(gf == object_fields(*r));
    }
    let mut out = String::new();
    push_char(&mut out, '{');
    append_joined(&mut out, &fields);
    push_char(&mut out, '}');
    proof {
        assert(out@ =~= seq!['{'] + join_comma(object_fields(*r)) + seq!['}']);
    }
    out
}

/// The JSON array holding the whole listing, in listing order: the
/// document the execution filter is evaluated against.
pub open spec fn json_of_objects(objects: Seq<ObjectRecord>) -> Seq<char> {
    seq!['['] + join_comma(objects.map_values(|o: ObjectRecord| json_of_object(o))) + seq![']']
}

/// Renders the whole listing as the filter's JSON input document.
pub fn objects_json(objects: &Vec<ObjectRecord>) -> (out: String)
    ensures
        out@ == json_of_objects(objects@),
{
    let ghost ov = objects@.map_values(|o: ObjectRecord| json_of_object(o));
    let mut rendered: Vec<String> = Vec::new();
    let mut i: usize = 0;
    proof {
        assert(rendered@.map_values(|f: String| f@) =~= ov.take(0));
    }
    while i < objects.len()
        invariant
            i <= objects@.len(),
            ov == objects@.map_values(|o: ObjectRecord| json_of_object(o)),
            rendered@.map_values(|f: String| f@) == ov.take(i as int),
        decreases objects@.len() - i,
    {
        let f = object_json(&objects[i]);
        let ghost prev = rendered@.map_values(|f: String| f@);
        rendered.push(f);
        i = i + 1;
        proof {
            assert(rendered@.map_values(|f: String| f@) =~= prev.push(json_of_object(
                objects@[i - 1],
            )));
            assert(ov.take(i as int) =~= ov.take(i - 1).push(ov[i - 1]));
        }
    }
    proof {
        assert(ov.take(objects@.len() as int) =~= ov);
    }
    let mut out = String::new();
    push_char(&mut out, '[');
    append_joined(&mut out, &rendered);
    push_char(&mut out, ']');
    proof {
        assert(out@ =~= seq!['['] + join_comma(ov) + seq![']']);
    }
    out
}

/// The key with the unit's prefix removed, when the prefix is
/// textually a prefix of it; a key outside the prefix keeps its raw
/// form as the relative path.
pub open spec fn spec_strip_prefix(key: Seq<char>, prefix: Seq<char>) -> Seq<char> {
    if prefix.is_prefix_of(key) {
        key.skip(prefix.len() as int)
    } else {
        key
    }
}

/// Whether `prefix` is a textual prefix of `key`.
fn starts_with_chars(key: &Vec<char>, prefix: &Vec<char>) -> (r: bool)
    ensures
        r == prefix@.is_prefix_of(key@),
{
    if prefix.len() > key.len() {
        return false;
    }
    let mut i: usize = 0;
    while i < prefix.len()
        invariant
            prefix@.len() <= key@.len(),
            i <= prefix@.len(),
            forall|j: int| 0 <= j < i ==> key@[j] == prefix@[j],
        decreases prefix@.len() - i,
    {
        if key[i] != prefix[i] {
            proof {
                assert(key@.subrange(0, prefix@.len() as int)[i as int] == key@[i as int]);
            }
            return false;
        }
        i = i + 1;
    }
    proof {
        assert(prefix@ =~= key@.subrange(0, prefix@.len() as int));
    }
    true
}

/// Removes the prefix from the key where it applies.
pub fn strip_prefix(key: &str, prefix: &str) -> (r: String)
    ensures
        r@ == spec_strip_prefix(key@, prefix@),
{
    let k = chars_of(key);
    let p = chars_of(prefix);
    if starts_with_chars(&k, &p) {
        let mut out: Vec<char> = Vec::new();
        let mut i: usize = p.len();
        proof {
            assert(out@ =~= k@.subrange(p@.len() as int, i as int));
        }
        while i < k.len()
            invariant
                p@.len() <= i <= k@.len(),
                out@ == k@.subrange(p@.len() as int, i as int),
            decreases k@.len() - i,
        {
            out.push(k[i]);
            i = i + 1;
            proof {
                assert(k@.subrange(p@.len() as int, i as int) =~= k@.subrange(
                    p@.len() as int,
                    i - 1,
                ).push(k@[i - 1]));
            }
        }
        proof {
            assert(k@.subrange(p@.len() as int, k@.len() as int) =~= k@.skip(p@.len() as int));
        }
        crate::text::string_of(&out)
    } else {
        let mut out: Vec<char> = Vec::new();
        let mut i: usize = 0;
        while i < k.len()
            invariant
                i <= k@.len(),
                out@ == k@.take(i as int),
            decreases k@.len() - i,
        {
            out.push(k[i]);
            i = i + 1;
            proof {
                assert(k@.take(i as int) =~= k@.take(i - 1).push(k@[i - 1]));
            }
        }
        proof {
            assert(k@.take(k@.len() as int) =~= k@);
        }
        crate::text::string_of(&out)
    }
}

/// Whether a listed object is pulled: it has a key and some pull
/// pattern matches it (no patterns at all pull everything).
pub open spec fn pull_selected(r: ObjectRecord, pats: Seq<KeyPattern>) -> bool {
    r.key is Some && spec_any_matches(pats, (r.key->0)@)
}

/// One planned download: the object's key and the path, relative to
/// the working directory, where its contents belong.
pub struct PullItem {
    pub key: String,
    pub relative_path: String,
}

/// The downloads a listing calls for, in listing order: every object
/// whose key matches a pull pattern, placed at its key with the
/// unit's prefix stripped.
pub open spec fn spec_plan_downloads(
    objects: Seq<ObjectRecord>,
    pats: Seq<KeyPattern>,
    prefix: Seq<char>,
) -> Seq<(Seq<char>, Seq<char>)>
    decreases objects.len(),
{
    if objects.len() == 0 {
        Seq::empty()
    } else {
        let rest = spec_plan_downloads(objects.drop_last(), pats, prefix);
        let o = objects.last();
        if pull_selected(o, pats) {
            rest.push(((o.key->0)@, spec_strip_prefix((o.key->0)@, prefix)))
        } else {
            rest
        }
    }
}

/// Plans the downloads of a unit of work.
pub fn plan_downloads(objects: &Vec<ObjectRecord>, pats: &Vec<KeyPattern>, prefix: &str) -> (r:
    Vec<PullItem>)
    ensures
        r@.map_values(|it: PullItem| (it.key@, it.relative_path@)) == spec_plan_downloads(
            objects@,
            pats@,
            prefix@,
        ),
{
    let mut out: Vec<PullItem> = Vec::new();
    let mut i: usize = 0;
    proof {
        assert(out@.map_values(|it: PullItem| (it.key@, it.relative_path@))
            =~= spec_plan_downloads(objects@.take(0), pats@, prefix@));
    }
    while i < objects.len()
        invariant
            i <= objects@.len(),
            out@.map_values(|it: PullItem| (it.key@, it.relative_path@)) == spec_plan_downloads(
                objects@.take(i as int),
                pats@,
                prefix@,
            ),
        decreases objects@.len() - i,
    {
        proof {
            assert(objects@.take(i + 1).drop_last() =~= objects@.take(i as int));
            assert(objects@.take(i + 1).last() == objects@[i as int]);
        }
        if let Some(key) = &objects[i].key {
            if any_matches(pats, key.as_str()) {
                let rel = strip_prefix(key.as_str(), prefix);
                let ghost prev = out@.map_values(|it: PullItem| (it.key@, it.relative_path@));
                out.push(PullItem { key: key.clone(), relative_path: rel });
                proof {
                    assert(out@.map_values(|it: PullItem| (it.key@, it.relative_path@))
                        =~= prev.push(
                        ((objects@[i as int].key->0)@, spec_strip_prefix(
                            (objects@[i as int].key->0)@,
                            prefix@,
                        )),
                    ));
                }
            }
        }
        i = i + 1;
    }
    proof {
        assert(objects@.take(objects@.len() as int) =~= objects@);
    }
    out
}

/// One planned upload: the changed file's path relative to the
/// working directory, and the storage key it is pushed to.
pub struct UploadItem {
    pub relative_path: String,
    pub key: String,
}

/// The storage key of a pushed file: the unit's prefix joined with
/// the file's relative path, with exactly one `/` between them when
/// the prefix is non-empty.
pub open spec fn spec_upload_key(prefix: Seq<char>, rel: Seq<char>) -> Seq<char> {
    if prefix.len() == 0 {
        rel
    } else if prefix.last() == '/' {
        prefix + rel
    } else {
        prefix + seq!['/'] + rel
    }
}

/// Joins the unit's prefix with a relative path.
pub fn upload_key(prefix: &str, rel: &str) -> (r: String)
    ensures
        r@ == spec_upload_key(prefix@, rel@),
{
    let p = chars_of(prefix);
    if p.len() == 0 {
        let rc = chars_of(rel);
        return crate::text::string_of(&rc);
    }
    let mut out = crate::text::string_of(&p);
    if p[p.len() - 1] != '/' {
        push_char(&mut out, '/');
        proof {
            assert(out@ =~= prefix@ + seq!['/']);
        }
    }
    out.append(rel);
    out
}

/// Plans the uploads of a unit of work: one per changed path, in the
/// order the difference scan produced them.
pub fn plan_uploads(prefix: &str, changed: &Vec<String>) -> (r: Vec<UploadItem>)
    ensures
        r@.len() == changed@.len(),
        forall|i: int|
            0 <= i < changed@.len() ==> (#[trigger] r@[i]).relative_path@ == changed@[i]@
                && r@[i].key@ == spec_upload_key(prefix@, changed@[i]@),
{
    let mut out: Vec<UploadItem> = Vec::new();
    let mut i: usize = 0;
    while i < changed.len()
        invariant
            i <= changed@.len(),
            out@.len() == i,
            forall|j: int|
                0 <= j < i ==> (#[trigger] out@[j]).relative_path@ == changed@[j]@
                    && out@[j].key@ == spec_upload_key(prefix@, changed@[j]@),
        decreases changed@.len() - i,
    {
        let key = upload_key(prefix, changed[i].as_str());
        out.push(UploadItem { relative_path: changed[i].clone(), key });
        i = i + 1;
    }
    out
}

} // verus!
