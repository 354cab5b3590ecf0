//! The struct-based (MSL-style) backend emitter.
//!
//! GLSL has no named argument structs, so this backend synthesizes a
//! `Uniforms` struct from the metadata, a `Vertex` struct from `attribute`
//! declarations, a `RasterizerData` struct from `varying` declarations, and
//! rewrites both `main` bodies into functions with explicit resource
//! bindings, qualifying every attribute/uniform/varying identifier with its
//! struct.  Function boundaries are found by brace counting, not parsing.

use vstd::prelude::*;

use crate::meta::{ShaderMeta, ShaderMetaV, UniformDescV, UniformType};
use crate::text::{
    chars_of, contains, count_char_exec, dec_i64, dec_u64, extend_chars, extend_str,
    is_wspace_exec, replace, split_at_char, split_lines, string_of, trim_chars,
};
use crate::text::{
    contains_seq, count_char, dec_int, dec_nat, is_wspace, replace_spec, spec_lines, split_char,
    starts_with_at, trim_spec,
};

verus! {

// ---------------------------------------------------------------------
// type and function name translation
// ---------------------------------------------------------------------
/// GLSL vector/matrix type names rewritten to the target's names, in the
/// fixed order the rewriter applies them.
pub open spec fn replace_types_spec(l: Seq<char>) -> Seq<char> {
    replace_spec(
        replace_spec(
            replace_spec(
                replace_spec(replace_spec(l, "vec2"@, "float2"@), "vec3"@, "float3"@),
                "vec4"@,
                "float4"@,
            ),
            "mat3"@,
            "float3x3"@,
        ),
        "mat4"@,
        "float4x4"@,
    )
}

/// GLSL type names rewritten to the target's names.
pub fn replace_types(l: &Vec<char>) -> (r: Vec<char>)
    ensures
        r@ == replace_types_spec(l@),
{
    proof {
        reveal_strlit("vec2");
        reveal_strlit("vec3");
        reveal_strlit("vec4");
        reveal_strlit("mat3");
        reveal_strlit("mat4");
    }
    let f1 = chars_of("vec2");
    let t1 = chars_of("float2");
    let r = replace(l, &f1, &t1);
    let f2 = chars_of("vec3");
    let t2 = chars_of("float3");
    let r = replace(&r, &f2, &t2);
    let f3 = chars_of("vec4");
    let t3 = chars_of("float4");
    let r = replace(&r, &f3, &t3);
    let f4 = chars_of("mat3");
    let t4 = chars_of("float3x3");
    let r = replace(&r, &f4, &t4);
    let f5 = chars_of("mat4");
    let t5 = chars_of("float4x4");
    replace(&r, &f5, &t5)
}

/// Derivative builtins renamed to the target's lowercase forms.
pub open spec fn replace_functions_spec(l: Seq<char>) -> Seq<char> {
    replace_spec(replace_spec(l, "dFdx"@, "dfdx"@), "dFdy"@, "dfdy"@)
}

/// Derivative builtins renamed to the target's lowercase forms.
pub fn replace_functions(l: &Vec<char>) -> (r: Vec<char>)
    ensures
        r@ == replace_functions_spec(l@),
{
    proof {
        reveal_strlit("dFdx");
        reveal_strlit("dFdy");
    }
    let f1 = chars_of("dFdx");
    let t1 = chars_of("dfdx");
    let r = replace(l, &f1, &t1);
    let f2 = chars_of("dFdy");
    let t2 = chars_of("dfdy");
    replace(&r, &f2, &t2)
}

/// The number of occurrences of `brace` in the line.
pub fn count_braces(line: &Vec<char>, brace: char) -> (n: usize)
    ensures
        n == count_char(line@, brace),
        n <= line.len(),
{
    count_char_exec(line, brace)
}

// ---------------------------------------------------------------------
// token scanning
// ---------------------------------------------------------------------
/// Whether `c` ends a token: whitespace, a parenthesis, or — when `semi`
/// is set — a semicolon.
pub open spec fn is_delim(c: char, semi: bool) -> bool {
    is_wspace(c) || c == '(' || c == ')' || (semi && c == ';')
}

/// Index of the first delimiter at or after `i`, or `t.len()`.
pub open spec fn find_delim(t: Seq<char>, i: int, semi: bool) -> int
    decreases t.len() - i,
{
    if i < 0 || i >= t.len() {
        t.len() as int
    } else if is_delim(t[i], semi) {
        i
    } else {
        find_delim(t, i + 1, semi)
    }
}

pub proof fn lemma_find_delim(t: Seq<char>, i: int, semi: bool)
    requires
        0 <= i <= t.len(),
    ensures
        i <= find_delim(t, i, semi) <= t.len(),
    decreases t.len() - i,
{
    if i < t.len() && !is_delim(t[i], semi) {
        lemma_find_delim(t, i + 1, semi);
    }
}

fn find_delim_exec(t: &Vec<char>, semi: bool) -> (j: usize)
    ensures
        j == find_delim(t@, 0, semi),
        j <= t.len(),
{
    let mut j: usize = 0;
    while j < t.len()
        invariant
            j <= t.len(),
            find_delim(t@, 0, semi) == find_delim(t@, j as int, semi),
        decreases t.len() - j,
    {
        let c = t[j];
        if is_wspace_exec(c) || c == '(' || c == ')' || (semi && c == ';') {
            proof {
                lemma_find_delim(t@, 0, semi);
            }
            return j;
        }
        j = j + 1;
    }
    proof {
        lemma_find_delim(t@, 0, semi);
    }
    j
}

/// The leading token of the trimmed line, up to whitespace or parenthesis.
pub open spec fn i32_tok(l: Seq<char>) -> Seq<char> {
    trim_spec(l).subrange(0, find_delim(trim_spec(l), 0, false))
}

/// What remains of the trimmed line after its leading token.
pub open spec fn i32_rest(l: Seq<char>) -> Seq<char> {
    trim_spec(l).skip(i32_tok(l).len() as int)
}

/// The leading token of the trimmed line, up to whitespace, parenthesis or
/// semicolon.
pub open spec fn str_tok(l: Seq<char>) -> Seq<char> {
    trim_spec(l).subrange(0, find_delim(trim_spec(l), 0, true))
}

/// What remains of the trimmed line after its leading token.
pub open spec fn str_rest(l: Seq<char>) -> Seq<char> {
    trim_spec(l).skip(str_tok(l).len() as int)
}

// ---------------------------------------------------------------------
// decimal integer tokens
// ---------------------------------------------------------------------
pub open spec fn is_digit(c: char) -> bool {
    c == '0' || c == '1' || c == '2' || c == '3' || c == '4' || c == '5' || c == '6' || c == '7'
        || c == '8' || c == '9'
}

pub open spec fn digit_val(c: char) -> nat {
    if c == '0' {
        0
    } else if c == '1' {
        1
    } else if c == '2' {
        2
    } else if c == '3' {
        3
    } else if c == '4' {
        4
    } else if c == '5' {
        5
    } else if c == '6' {
        6
    } else if c == '7' {
        7
    } else if c == '8' {
        8
    } else {
        9
    }
}

/// The value of a digit string, most significant digit first.
pub open spec fn digits_val(t: Seq<char>) -> nat
    decreases t.len(),
{
    if t.len() == 0 {
        0
    } else {
        digits_val(t.drop_last()) * 10 + digit_val(t.last())
    }
}

pub open spec fn is_digit_seq(t: Seq<char>) -> bool {
    t.len() >= 1 && forall|i: int| 0 <= i < t.len() ==> is_digit(t[i])
}

/// A token `i32::from_str` accepts: an optional sign followed by digits,
/// with a value in the `i32` range.
pub open spec fn is_i32_token(t: Seq<char>) -> bool {
    (is_digit_seq(t) && digits_val(t) <= 2147483647) || (t.len() >= 2 && t[0] == '+'
        && is_digit_seq(t.skip(1)) && digits_val(t.skip(1)) <= 2147483647) || (t.len() >= 2 && t[0]
        == '-' && is_digit_seq(t.skip(1)) && digits_val(t.skip(1)) <= 2147483648)
}

/// The value `i32::from_str` reads from the token.
pub open spec fn i32_token_val(t: Seq<char>) -> int {
    if t.len() >= 1 && t[0] == '-' {
        -(digits_val(t.skip(1)) as int)
    } else if t.len() >= 1 && t[0] == '+' {
        digits_val(t.skip(1)) as int
    } else {
        digits_val(t) as int
    }
}

proof fn lemma_digits_prefix(t: Seq<char>, k: int)
    requires
        0 <= k <= t.len(),
        forall|i: int| 0 <= i < t.len() ==> is_digit(t[i]),
    ensures
        digits_val(t.subrange(0, k)) <= digits_val(t),
    decreases t.len() - k,
{
    if k == t.len() {
        assert(t.subrange(0, k) =~= t);
    } else {
        lemma_digits_prefix(t, k + 1);
        assert(t.subrange(0, k + 1).drop_last() =~= t.subrange(0, k));
        assert(digits_val(t.subrange(0, k + 1)) == digits_val(t.subrange(0, k)) * 10 + digit_val(
            t[k],
        ));
    }
}

/// The value of a digit token, as `i32::from_str` reads it.
fn parse_i32_tok(t: &Vec<char>) -> (r: i32)
    requires
        is_i32_token(t@),
    ensures
        r as int == i32_token_val(t@),
{
    let neg = t[0] == '-';
    let start: usize = if t[0] == '-' || t[0] == '+' {
        1
    } else {
        0
    };
    let ghost d = t@.skip(start as int);
    proof {
        if start == 0 {
            assert(d =~= t@);
        }
        assert(is_digit_seq(d));
        assert(digits_val(d) <= 2147483648);
    }
    let mut v: u64 = 0;
    let mut i: usize = start;
    proof {
        assert(d.subrange(0, 0) =~= Seq::<char>::empty());
    }
    while i < t.len()
        invariant
            start <= i <= t.len(),
            is_digit_seq(d),
            digits_val(d) <= 2147483648,
            d == t@.skip(start as int),
            v == digits_val(d.subrange(0, i - start)),
            v <= 2147483648,
        decreases t.len() - i,
    {
        let c = t[i];
        let dv: u64 = if c == '0' {
            0
        } else if c == '1' {
            1
        } else if c == '2' {
            2
        } else if c == '3' {
            3
        } else if c == '4' {
            4
        } else if c == '5' {
            5
        } else if c == '6' {
            6
        } else if c == '7' {
            7
        } else if c == '8' {
            8
        } else {
            9
        };
        proof {
            assert(d[i - start] == t@[i as int]);
            assert(dv == digit_val(d[i - start]));
            assert(d.subrange(0, i - start + 1).drop_last() =~= d.subrange(0, i - start));
            assert(digits_val(d.subrange(0, i - start + 1)) == v * 10 + dv);
            lemma_digits_prefix(d, i - start + 1);
        }
        v = v * 10 + dv;
        i = i + 1;
    }
    proof {
        assert(d.subrange(0, d.len() as int) =~= d);
    }
    if neg {
        let w: i64 = -(v as i64);
        w as i32
    } else {
        v as i32
    }
}

// ---------------------------------------------------------------------
// line-eating parsers for render-target declarations
// ---------------------------------------------------------------------
/// The trimmed line begins with `p`.
pub open spec fn eat_ok(l: Seq<char>, p: Seq<char>) -> bool {
    starts_with_at(trim_spec(l), p, 0)
}

/// What remains after trimming the line and removing the prefix `p`.
pub open spec fn eat_spec(l: Seq<char>, p: Seq<char>) -> Seq<char> {
    trim_spec(l).skip(p.len() as int)
}

/// Trims the line, then removes the leading occurrence of `l`, as the
/// render-target declaration parser consumes its fixed words.
pub fn eat_string(line: &mut Vec<char>, l: &str)
    requires
        eat_ok(old(line)@, l@),
    ensures
        final(line)@ == eat_spec(old(line)@, l@),
{
    let t = trim_chars(line);
    let p = chars_of(l);
    let mut out: Vec<char> = Vec::new();
    let mut k: usize = p.len();
    proof {
        assert(out@ =~= t@.subrange(p@.len() as int, p@.len() as int));
    }
    while k < t.len()
        invariant
            p.len() <= k <= t.len(),
            out@ == t@.subrange(p@.len() as int, k as int),
        decreases t.len() - k,
    {
        out.push(t[k]);
        k = k + 1;
        assert(out@ =~= t@.subrange(p@.len() as int, k as int));
    }
    proof {
        assert(out@ =~= t@.skip(p@.len() as int));
    }
    *line = out;
}

/// Reads the leading integer token of the trimmed line and consumes it.
pub fn get_i32(line: &mut Vec<char>) -> (r: i32)
    requires
        is_i32_token(i32_tok(old(line)@)),
    ensures
        r as int == i32_token_val(i32_tok(old(line)@)),
        final(line)@ == i32_rest(old(line)@),
{
    let t = trim_chars(line);
    let e = find_delim_exec(&t, false);
    let mut tok: Vec<char> = Vec::new();
    let mut k: usize = 0;
    while k < e
        invariant
            k <= e <= t.len(),
            tok@ == t@.subrange(0, k as int),
        decreases e - k,
    {
        tok.push(t[k]);
        k = k + 1;
        assert(tok@ =~= t@.subrange(0, k as int));
    }
    assert(tok@ =~= i32_tok(old(line)@));
    let r = parse_i32_tok(&tok);
    let mut out: Vec<char> = Vec::new();
    let mut k2: usize = e;
    proof {
        assert(out@ =~= t@.subrange(e as int, e as int));
    }
    while k2 < t.len()
        invariant
            e <= k2 <= t.len(),
            out@ == t@.subrange(e as int, k2 as int),
        decreases t.len() - k2,
    {
        out.push(t[k2]);
        k2 = k2 + 1;
        assert(out@ =~= t@.subrange(e as int, k2 as int));
    }
    proof {
        assert(out@ =~= i32_rest(old(line)@));
    }
    *line = out;
    r
}

/// Reads the leading token of the trimmed line (stopping also at `;`) and
/// consumes it.
pub fn get_string(line: &mut Vec<char>) -> (r: Vec<char>)
    ensures
        r@ == str_tok(old(line)@),
        final(line)@ == str_rest(old(line)@),
{
    let t = trim_chars(line);
    let e = find_delim_exec(&t, true);
    let mut tok: Vec<char> = Vec::new();
    let mut k: usize = 0;
    while k < e
        invariant
            k <= e <= t.len(),
            tok@ == t@.subrange(0, k as int),
        decreases e - k,
    {
        tok.push(t[k]);
        k = k + 1;
        assert(tok@ =~= t@.subrange(0, k as int));
    }
    assert(tok@ =~= str_tok(old(line)@));
    let mut out: Vec<char> = Vec::new();
    let mut k2: usize = e;
    proof {
        assert(out@ =~= t@.subrange(e as int, e as int));
    }
    while k2 < t.len()
        invariant
            e <= k2 <= t.len(),
            out@ == t@.subrange(e as int, k2 as int),
        decreases t.len() - k2,
    {
        out.push(t[k2]);
        k2 = k2 + 1;
        assert(out@ =~= t@.subrange(e as int, k2 as int));
    }
    proof {
        assert(out@ =~= str_rest(old(line)@));
    }
    *line = out;
    tok
}

// ---------------------------------------------------------------------
// declaration scanning and struct synthesis
// ---------------------------------------------------------------------
/// An `attribute`/`varying` declaration line after type translation,
/// semicolon removal and trimming.
pub open spec fn decl_proc(l: Seq<char>) -> Seq<char> {
    trim_spec(replace_spec(replace_types_spec(l), ";"@, Seq::empty()))
}

/// The space-separated tokens of a processed declaration line.
pub open spec fn decl_tokens(l: Seq<char>) -> Seq<Seq<char>> {
    split_char(decl_proc(l), ' ')
}

/// A declaration line the scanner can read: the type at token 1, the name
/// at token 2 and the binding location at token 4, the name non-empty.
pub open spec fn wf_decl_line(l: Seq<char>) -> bool {
    decl_tokens(l).len() >= 5 && decl_tokens(l)[2].len() >= 1
}

/// The synthesized struct fields for every line containing `kw`.
pub open spec fn struct_fields(ls: Seq<Seq<char>>, kw: Seq<char>) -> Seq<char>
    decreases ls.len(),
{
    if ls.len() == 0 {
        Seq::empty()
    } else {
        struct_fields(ls.drop_last(), kw) + (if contains_seq(ls.last(), kw) {
            let ts = decl_tokens(ls.last());
            "    "@ + ts[1] + " "@ + ts[2] + " "@ + ts[4] + ";\n"@
        } else {
            Seq::empty()
        })
    }
}

/// The declared names of every line containing `kw`, in order.
pub open spec fn decl_names(ls: Seq<Seq<char>>, kw: Seq<char>) -> Seq<Seq<char>>
    decreases ls.len(),
{
    if ls.len() == 0 {
        Seq::empty()
    } else {
        decl_names(ls.drop_last(), kw) + (if contains_seq(ls.last(), kw) {
            seq![decl_tokens(ls.last())[2]]
        } else {
            Seq::empty()
        })
    }
}

fn clone_chars(v: &Vec<char>) -> (r: Vec<char>)
    ensures
        r@ == v@,
{
    let mut r: Vec<char> = Vec::new();
    extend_chars(&mut r, v);
    r
}

fn eq_chars(a: &Vec<char>, b: &Vec<char>) -> (r: bool)
    ensures
        r == (a@ == b@),
{
    if a.len() != b.len() {
        return false;
    }
    let mut i: usize = 0;
    while i < a.len()
        invariant
            i <= a.len(),
            a.len() == b.len(),
            forall|k: int| 0 <= k < i ==> a@[k] == b@[k],
        decreases a.len() - i,
    {
        if a[i] != b[i] {
            assert(a@ != b@);
            return false;
        }
        i = i + 1;
    }
    proof {
        assert(a@ =~= b@);
    }
    true
}

/// Scans for lines containing `kw`, appends one struct field per hit and
/// collects the declared names.
fn scan_decls(out: &mut Vec<char>, ls: &Vec<Vec<char>>, kw: &str) -> (names: Vec<Vec<char>>)
    requires
        kw@.len() >= 1,
        forall|i: int|
            0 <= i < ls.deep_view().len() && contains_seq(#[trigger] ls.deep_view()[i], kw@)
                ==> wf_decl_line(ls.deep_view()[i]),
    ensures
        final(out)@ == old(out)@ + struct_fields(ls.deep_view(), kw@),
        names.deep_view() == decl_names(ls.deep_view(), kw@),
{
    let kwv = chars_of(kw);
    let mut names: Vec<Vec<char>> = Vec::new();
    let mut i: usize = 0;
    proof {
        assert(old(out)@ + struct_fields(ls.deep_view().subrange(0, 0), kw@) =~= old(out)@);
        assert(names.deep_view() =~~= decl_names(ls.deep_view().subrange(0, 0), kw@));
    }
    while i < ls.len()
        invariant
            i <= ls.len(),
            kwv@ == kw@,
            kw@.len() >= 1,
            forall|k: int|
                0 <= k < ls.deep_view().len() && contains_seq(#[trigger] ls.deep_view()[k], kw@)
                    ==> wf_decl_line(ls.deep_view()[k]),
            out@ == old(out)@ + struct_fields(ls.deep_view().subrange(0, i as int), kw@),
            names.deep_view() == decl_names(ls.deep_view().subrange(0, i as int), kw@),
        decreases ls.len() - i,
    {
        let ghost pre = ls.deep_view().subrange(0, i as int);
        let ghost cur = ls.deep_view()[i as int];
        proof {
            assert(ls.deep_view().subrange(0, i + 1).drop_last() =~= pre);
            assert(ls.deep_view().subrange(0, i + 1).last() == cur);
            assert(cur =~= ls@[i as int]@);
        }
        if contains(&ls[i], &kwv) {
            proof {
                reveal_strlit(";");
            }
            let a = replace_types(&ls[i]);
            let semi = chars_of(";");
            let emp: Vec<char> = Vec::new();
            let a = replace(&a, &semi, &emp);
            let a = trim_chars(&a);
            let toks = split_at_char(&a, ' ');
            proof {
                assert(toks.deep_view() == decl_tokens(cur));
                assert(wf_decl_line(cur));
            }
            extend_str(out, "    ");
            extend_chars(out, &toks[1]);
            extend_str(out, " ");
            extend_chars(out, &toks[2]);
            extend_str(out, " ");
            extend_chars(out, &toks[4]);
            extend_str(out, ";\n");
            let name = clone_chars(&toks[2]);
            let ghost old_ndv = names.deep_view();
            let ghost nv = name@;
            names.push(name);
            proof {
                assert(names.deep_view() =~~= old_ndv + seq![nv]);
                assert(toks.deep_view()[1] == toks@[1]@);
                assert(toks.deep_view()[2] == toks@[2]@);
                assert(toks.deep_view()[4] == toks@[4]@);
            }
        }
        i = i + 1;
        proof {
            assert(out@ =~= old(out)@ + struct_fields(ls.deep_view().subrange(0, i as int), kw@));
            assert(names.deep_view() =~~= decl_names(ls.deep_view().subrange(0, i as int), kw@));
        }
    }
    proof {
        assert(ls.deep_view().subrange(0, ls@.len() as int) =~= ls.deep_view());
    }
    names
}

/// The target's type name for one uniform.
pub open spec fn msl_type_name(t: UniformType) -> Seq<char> {
    match t {
        UniformType::Float1 => "float"@,
        UniformType::Float2 => "float2"@,
        UniformType::Float3 => "float3"@,
        UniformType::Float4 => "float4"@,
        UniformType::Int1 => "int"@,
        UniformType::Int2 => "int2"@,
        UniformType::Int3 => "int3"@,
        UniformType::Int4 => "int4"@,
        UniformType::Mat4 => "float4x4"@,
    }
}

/// The fields of the synthesized `Uniforms` struct, one per uniform, in
/// declaration order.
pub open spec fn uniforms_fields(us: Seq<UniformDescV>) -> Seq<char>
    decreases us.len(),
{
    if us.len() == 0 {
        Seq::empty()
    } else {
        uniforms_fields(us.drop_last()) + "    "@ + msl_type_name(us.last().uniform_type) + " "@
            + us.last().name + ";\n"@
    }
}

/// The synthesized `Uniforms` struct.
pub open spec fn uniforms_struct_text(us: Seq<UniformDescV>) -> Seq<char> {
    "struct Uniforms {\n"@ + uniforms_fields(us) + "};\n"@
}

/// Appends the synthesized `Uniforms` struct: one field per uniform of the
/// metadata, in declaration order, with translated type names.
pub fn emit_uniforms_struct(processed: &mut Vec<char>, meta: &ShaderMeta)
    ensures
        final(processed)@ == old(processed)@ + uniforms_struct_text(meta@.uniforms),
{
    extend_str(processed, "struct Uniforms {\n");
    let ghost base = processed@;
    let mut i: usize = 0;
    proof {
        assert(base + uniforms_fields(meta@.uniforms.subrange(0, 0)) =~= base);
    }
    while i < meta.uniforms.uniforms.len()
        invariant
            i <= meta.uniforms.uniforms.len(),
            processed@ == base + uniforms_fields(meta@.uniforms.subrange(0, i as int)),
        decreases meta.uniforms.uniforms.len() - i,
    {
        extend_str(processed, "    ");
        let tname: &'static str = match meta.uniforms.uniforms[i].uniform_type {
            UniformType::Float1 => "float",
            UniformType::Float2 => "float2",
            UniformType::Float3 => "float3",
            UniformType::Float4 => "float4",
            UniformType::Int1 => "int",
            UniformType::Int2 => "int2",
            UniformType::Int3 => "int3",
            UniformType::Int4 => "int4",
            UniformType::Mat4 => "float4x4",
        };
        extend_str(processed, tname);
        extend_str(processed, " ");
        extend_str(processed, meta.uniforms.uniforms[i].name.as_str());
        extend_str(processed, ";\n");
        i = i + 1;
        proof {
            assert(meta@.uniforms.subrange(0, i as int).drop_last() =~= meta@.uniforms.subrange(
                0,
                i - 1,
            ));
            assert(meta@.uniforms.subrange(0, i as int).last() == meta@.uniforms[i - 1]);
            assert(processed@ =~= base + uniforms_fields(meta@.uniforms.subrange(0, i as int)));
        }
    }
    extend_str(processed, "};\n");
    proof {
        assert(meta@.uniforms.subrange(0, meta@.uniforms.len() as int) =~= meta@.uniforms);
        assert(processed@ =~= old(processed)@ + uniforms_struct_text(meta@.uniforms));
    }
}

/// The uniform names of the metadata, in order.
pub open spec fn u_names(us: Seq<UniformDescV>) -> Seq<Seq<char>> {
    Seq::new(us.len(), |i: int| us[i].name)
}

fn uniform_names(meta: &ShaderMeta) -> (r: Vec<Vec<char>>)
    ensures
        r.deep_view() == u_names(meta@.uniforms),
{
    let mut r: Vec<Vec<char>> = Vec::new();
    let mut i: usize = 0;
    while i < meta.uniforms.uniforms.len()
        invariant
            i <= meta.uniforms.uniforms.len(),
            r.deep_view() == u_names(meta@.uniforms).subrange(0, i as int),
        decreases meta.uniforms.uniforms.len() - i,
    {
        let ghost old_dv = r.deep_view();
        let n = chars_of(meta.uniforms.uniforms[i].name.as_str());
        let ghost nv = n@;
        r.push(n);
        i = i + 1;
        proof {
            assert(r.deep_view() =~~= old_dv + seq![nv]);
            assert(r.deep_view() =~~= u_names(meta@.uniforms).subrange(0, i as int));
        }
    }
    proof {
        assert(u_names(meta@.uniforms).subrange(0, meta@.uniforms.len() as int) =~= u_names(
            meta@.uniforms,
        ));
    }
    r
}

// ---------------------------------------------------------------------
// sampler declarations
// ---------------------------------------------------------------------
/// The space-separated tokens of a trimmed sampler declaration line.
pub open spec fn samp_tokens(l: Seq<char>) -> Seq<Seq<char>> {
    split_char(trim_spec(l), ' ')
}

/// A sampler declaration line the scanner can read.
pub open spec fn wf_samp_line(l: Seq<char>) -> bool {
    samp_tokens(l).len() >= 3
}

/// The declared texture names of every `uniform sampler` line, in order,
/// with semicolons removed.
pub open spec fn samp_names(ls: Seq<Seq<char>>) -> Seq<Seq<char>>
    decreases ls.len(),
{
    if ls.len() == 0 {
        Seq::empty()
    } else {
        samp_names(ls.drop_last()) + (if contains_seq(ls.last(), "uniform sampler"@) {
            seq![replace_spec(samp_tokens(ls.last())[2], ";"@, Seq::empty())]
        } else {
            Seq::empty()
        })
    }
}

/// The declared sampler kinds of every `uniform sampler` line, in order.
pub open spec fn samp_types(ls: Seq<Seq<char>>) -> Seq<Seq<char>>
    decreases ls.len(),
{
    if ls.len() == 0 {
        Seq::empty()
    } else {
        samp_types(ls.drop_last()) + (if contains_seq(ls.last(), "uniform sampler"@) {
            seq![samp_tokens(ls.last())[1]]
        } else {
            Seq::empty()
        })
    }
}

/// Collects the texture name and sampler kind of every `uniform sampler`
/// declaration of the fragment stage.
pub fn collect_texture_types(ls: &Vec<Vec<char>>) -> (r: (Vec<Vec<char>>, Vec<Vec<char>>))
    requires
        forall|i: int|
            0 <= i < ls.deep_view().len() && contains_seq(
                #[trigger] ls.deep_view()[i],
                "uniform sampler"@,
            ) ==> wf_samp_line(ls.deep_view()[i]),
    ensures
        r.0.deep_view() == samp_names(ls.deep_view()),
        r.1.deep_view() == samp_types(ls.deep_view()),
{
    let mut names: Vec<Vec<char>> = Vec::new();
    let mut types: Vec<Vec<char>> = Vec::new();
    let kwv = chars_of("uniform sampler");
    proof {
        reveal_strlit("uniform sampler");
        assert(names.deep_view() =~~= samp_names(ls.deep_view().subrange(0, 0)));
        assert(types.deep_view() =~~= samp_types(ls.deep_view().subrange(0, 0)));
    }
    let mut i: usize = 0;
    while i < ls.len()
        invariant
            i <= ls.len(),
            kwv@ == "uniform sampler"@,
            kwv@.len() >= 1,
            forall|k: int|
                0 <= k < ls.deep_view().len() && contains_seq(
                    #[trigger] ls.deep_view()[k],
                    "uniform sampler"@,
                ) ==> wf_samp_line(ls.deep_view()[k]),
            names.deep_view() == samp_names(ls.deep_view().subrange(0, i as int)),
            types.deep_view() == samp_types(ls.deep_view().subrange(0, i as int)),
        decreases ls.len() - i,
    {
        let ghost cur = ls.deep_view()[i as int];
        proof {
            assert(ls.deep_view().subrange(0, i + 1).drop_last() =~= ls.deep_view().subrange(
                0,
                i as int,
            ));
            assert(ls.deep_view().subrange(0, i + 1).last() == cur);
            assert(cur =~= ls@[i as int]@);
        }
        if contains(&ls[i], &kwv) {
            let t = trim_chars(&ls[i]);
            let toks = split_at_char(&t, ' ');
            proof {
                assert(toks.deep_view() == samp_tokens(cur));
                assert(wf_samp_line(cur));
                reveal_strlit(";");
            }
            let semi = chars_of(";");
            let emp: Vec<char> = Vec::new();
            let name = replace(&toks[2], &semi, &emp);
            let ty = clone_chars(&toks[1]);
            let ghost ndv = names.deep_view();
            let ghost tdv = types.deep_view();
            let ghost nv = name@;
            let ghost tv = ty@;
            names.push(name);
            types.push(ty);
            proof {
                assert(names.deep_view() =~~= ndv + seq![nv]);
                assert(types.deep_view() =~~= tdv + seq![tv]);
                assert(toks.deep_view()[2] == toks@[2]@);
                assert(toks.deep_view()[1] == toks@[1]@);
            }
        }
        i = i + 1;
        proof {
            assert(names.deep_view() =~~= samp_names(ls.deep_view().subrange(0, i as int)));
            assert(types.deep_view() =~~= samp_types(ls.deep_view().subrange(0, i as int)));
        }
    }
    proof {
        assert(ls.deep_view().subrange(0, ls@.len() as int) =~= ls.deep_view());
    }
    (names, types)
}

/// The kind recorded for `key` by the latest declaration, as a map built
/// by insertion would report it.
pub open spec fn lookup_last(
    names: Seq<Seq<char>>,
    types: Seq<Seq<char>>,
    key: Seq<char>,
) -> Option<Seq<char>>
    decreases names.len(),
{
    if names.len() == 0 || names.len() != types.len() {
        None
    } else if names.last() == key {
        Some(types.last())
    } else {
        lookup_last(names.drop_last(), types.drop_last(), key)
    }
}

fn lookup_tex(names: &Vec<Vec<char>>, types: &Vec<Vec<char>>, key: &Vec<char>) -> (r: Option<
    Vec<char>,
>)
    requires
        names.len() == types.len(),
    ensures
        match r {
            Some(t) => lookup_last(names.deep_view(), types.deep_view(), key@) == Some(t@),
            None => lookup_last(names.deep_view(), types.deep_view(), key@) is None,
        },
{
    let mut i: usize = names.len();
    proof {
        assert(names.deep_view().subrange(0, names@.len() as int) =~= names.deep_view());
        assert(types.deep_view().subrange(0, types@.len() as int) =~= types.deep_view());
    }
    while i > 0
        invariant
            i <= names.len(),
            names.len() == types.len(),
            lookup_last(names.deep_view(), types.deep_view(), key@) == lookup_last(
                names.deep_view().subrange(0, i as int),
                types.deep_view().subrange(0, i as int),
                key@,
            ),
        decreases i,
    {
        proof {
            assert(names.deep_view().subrange(0, i as int).drop_last()
                =~= names.deep_view().subrange(0, i - 1));
            assert(types.deep_view().subrange(0, i as int).drop_last()
                =~= types.deep_view().subrange(0, i - 1));
            assert(names.deep_view().subrange(0, i as int).last() == names@[i - 1]@);
            assert(types.deep_view().subrange(0, i as int).last() == types@[i - 1]@);
        }
        if eq_chars(&names[i - 1], key) {
            let t = clone_chars(&types[i - 1]);
            return Some(t);
        }
        i = i - 1;
    }
    proof {
        assert(names.deep_view().subrange(0, 0) =~= Seq::<Seq<char>>::empty());
        assert(types.deep_view().subrange(0, 0) =~= Seq::<Seq<char>>::empty());
    }
    None
}

// ---------------------------------------------------------------------
// identifier qualification
// ---------------------------------------------------------------------
/// One identifier qualified with its struct prefix: every occurrence of
/// `name` gains the prefix, and freshly doubled prefixes collapse back, so
/// already-qualified occurrences stay single.
pub open spec fn qualify_one(l: Seq<char>, name: Seq<char>, p: Seq<char>) -> Seq<char> {
    replace_spec(replace_spec(l, name, p + name), p + p, p)
}

/// All the given identifiers qualified, in order.
pub open spec fn qualify_from(l: Seq<char>, names: Seq<Seq<char>>, i: int, p: Seq<char>) -> Seq<
    char,
>
    decreases names.len() - i,
{
    if i < 0 || i >= names.len() {
        l
    } else {
        qualify_from(qualify_one(l, names[i], p), names, i + 1, p)
    }
}

/// All the given identifiers qualified, in order.
pub open spec fn qualify_all(l: Seq<char>, names: Seq<Seq<char>>, p: Seq<char>) -> Seq<char> {
    qualify_all_from_zero(l, names, p)
}

pub open spec fn qualify_all_from_zero(l: Seq<char>, names: Seq<Seq<char>>, p: Seq<char>) -> Seq<
    char,
> {
    qualify_from(l, names, 0, p)
}

/// Qualifies every listed identifier with the struct prefix.
pub fn qualify(line: &Vec<char>, names: &Vec<Vec<char>>, prefix: &Vec<char>) -> (r: Vec<char>)
    requires
        prefix@.len() >= 1,
        forall|i: int| 0 <= i < names.deep_view().len() ==> (#[trigger] names.deep_view()[i]).len()
            >= 1,
    ensures
        r@ == qualify_all(line@, names.deep_view(), prefix@),
{
    let mut cur = clone_chars(line);
    let mut i: usize = 0;
    while i < names.len()
        invariant
            i <= names.len(),
            prefix@.len() >= 1,
            forall|k: int|
                0 <= k < names.deep_view().len() ==> (#[trigger] names.deep_view()[k]).len() >= 1,
            qualify_from(cur@, names.deep_view(), i as int, prefix@) == qualify_all(
                line@,
                names.deep_view(),
                prefix@,
            ),
        decreases names.len() - i,
    {
        let mut pn = clone_chars(prefix);
        extend_chars(&mut pn, &names[i]);
        let mut pp = clone_chars(prefix);
        extend_chars(&mut pp, prefix);
        proof {
            assert(names.deep_view()[i as int] == names@[i as int]@);
        }
        let c1 = replace(&cur, &names[i], &pn);
        let c2 = replace(&c1, &pp, prefix);
        proof {
            assert(c2@ == qualify_one(cur@, names.deep_view()[i as int], prefix@));
        }
        cur = c2;
        i = i + 1;
    }
    cur
}

// ---------------------------------------------------------------------
// the vertex stage state machine
// ---------------------------------------------------------------------
/// The rewriter's state while walking one stage's lines.
pub struct VSt {
    pub out: Seq<char>,
    pub in_main: bool,
    pub depth: int,
}

/// Declaration lines are consumed by the struct synthesis and skipped here.
pub open spec fn skip_line(l: Seq<char>) -> bool {
    contains_seq(l, "uniform"@) || contains_seq(l, "attribute"@) || contains_seq(l, "varying"@)
}

/// The explicit marker that opens an entry point body.
pub open spec fn is_main_line(l: Seq<char>) -> bool {
    contains_seq(l, "void main()"@)
}

/// The synthesized vertex entry point header.
pub open spec fn vertex_header_text() -> Seq<char> {
    "vertex RasterizerData vertexShader(\n"@ + "    Vertex v [[stage_in]],\n"@
        + "    constant Uniforms& uniforms [[buffer(0)]]\n"@ + ") {\n"@
        + "    RasterizerData msl_vertex_out;\n"@
}

/// The clip-space Y flip, injected before the return when requested.
pub open spec fn flip_text(flip: bool) -> Seq<char> {
    if flip {
        "msl_vertex_out.position.y = -msl_vertex_out.position.y;\n"@
    } else {
        Seq::empty()
    }
}

/// One vertex body line after identifier qualification.
pub open spec fn v_line_subst(
    l1: Seq<char>,
    anames: Seq<Seq<char>>,
    unames: Seq<Seq<char>>,
    onames: Seq<Seq<char>>,
) -> Seq<char> {
    qualify_all(
        qualify_all(
            qualify_all(replace_spec(l1, "gl_Position"@, "msl_vertex_out.position"@), anames, "v."@),
            unames,
            "uniforms."@,
        ),
        onames,
        "msl_vertex_out."@,
    )
}

/// One step of the vertex stage rewriter.
pub open spec fn v_step(
    st: VSt,
    l: Seq<char>,
    anames: Seq<Seq<char>>,
    unames: Seq<Seq<char>>,
    onames: Seq<Seq<char>>,
    flip: bool,
) -> VSt {
    if skip_line(l) {
        st
    } else if is_main_line(l) {
        VSt { out: st.out + vertex_header_text(), in_main: true, depth: count_char(l, '{') as int }
    } else {
        let l1 = trim_spec(replace_types_spec(replace_spec(l, "mat3("@, "sm_to_m3("@)));
        if st.in_main {
            let d = st.depth + count_char(l1, '{') - count_char(l1, '}');
            let l2 = v_line_subst(l1, anames, unames, onames);
            if d == 0 {
                VSt {
                    out: st.out + flip_text(flip) + "return msl_vertex_out;\n"@ + l2 + "\n"@,
                    in_main: false,
                    depth: d,
                }
            } else {
                VSt { out: st.out + l2 + "\n"@, in_main: true, depth: d }
            }
        } else {
            VSt { out: st.out + l1 + "\n"@, in_main: false, depth: st.depth }
        }
    }
}

/// The vertex stage rewriter folded over the first `i` lines.
pub open spec fn v_fold(
    ls: Seq<Seq<char>>,
    i: int,
    anames: Seq<Seq<char>>,
    unames: Seq<Seq<char>>,
    onames: Seq<Seq<char>>,
    flip: bool,
) -> VSt
    decreases i,
{
    if i <= 0 {
        VSt { out: Seq::empty(), in_main: false, depth: 0 }
    } else {
        v_step(v_fold(ls, i - 1, anames, unames, onames, flip), ls[i - 1], anames, unames, onames, flip)
    }
}

#[verifier::rlimit(100)]
#[verifier::spinoff_prover]
fn emit_vertex_body(
    out: &mut Vec<char>,
    ls: &Vec<Vec<char>>,
    anames: &Vec<Vec<char>>,
    unames: &Vec<Vec<char>>,
    onames: &Vec<Vec<char>>,
    flip: bool,
)
    requires
        forall|k: int|
            0 <= k < anames.deep_view().len() ==> (#[trigger] anames.deep_view()[k]).len() >= 1,
        forall|k: int|
            0 <= k < unames.deep_view().len() ==> (#[trigger] unames.deep_view()[k]).len() >= 1,
        forall|k: int|
            0 <= k < onames.deep_view().len() ==> (#[trigger] onames.deep_view()[k]).len() >= 1,
    ensures
        final(out)@ == old(out)@ + v_fold(
            ls.deep_view(),
            ls.deep_view().len() as int,
            anames.deep_view(),
            unames.deep_view(),
            onames.deep_view(),
            flip,
        ).out,
{
    let ghost lsdv = ls.deep_view();
    let ghost adv = anames.deep_view();
    let ghost udv = unames.deep_view();
    let ghost odv = onames.deep_view();
    let mut in_main: bool = false;
    let mut opens: u128 = 0;
    let mut closes: u128 = 0;
    let mut i: usize = 0;
    while i < ls.len()
        invariant
            i <= ls.len(),
            lsdv == ls.deep_view(),
            adv == anames.deep_view(),
            udv == unames.deep_view(),
            odv == onames.deep_view(),
            forall|k: int| 0 <= k < adv.len() ==> (#[trigger] adv[k]).len() >= 1,
            forall|k: int| 0 <= k < udv.len() ==> (#[trigger] udv[k]).len() >= 1,
            forall|k: int| 0 <= k < odv.len() ==> (#[trigger] odv[k]).len() >= 1,
            out@ == old(out)@ + v_fold(lsdv, i as int, adv, udv, odv, flip).out,
            in_main == v_fold(lsdv, i as int, adv, udv, odv, flip).in_main,
            opens - closes == v_fold(lsdv, i as int, adv, udv, odv, flip).depth,
            opens <= (i as int) * 0x1_0000_0000_0000_0000,
            closes <= (i as int) * 0x1_0000_0000_0000_0000,
        decreases ls.len() - i,
    {
        let ghost st = v_fold(lsdv, i as int, adv, udv, odv, flip);
        let ghost st2 = v_fold(lsdv, i as int + 1, adv, udv, odv, flip);
        proof {
            assert(st2 == v_step(st, lsdv[i as int], adv, udv, odv, flip));
            assert(lsdv[i as int] =~= ls@[i as int]@);
            reveal_strlit("uniform");
            reveal_strlit("attribute");
            reveal_strlit("varying");
            reveal_strlit("void main()");
        }
        let kw1 = chars_of("uniform");
        let kw2 = chars_of("attribute");
        let kw3 = chars_of("varying");
        let kwm = chars_of("void main()");
        if contains(&ls[i], &kw1) || contains(&ls[i], &kw2) || contains(&ls[i], &kw3) {
            proof {
                assert(st2 == st);
            }
        } else if contains(&ls[i], &kwm) {
            extend_str(out, "vertex RasterizerData vertexShader(\n");
            extend_str(out, "    Vertex v [[stage_in]],\n");
            extend_str(out, "    constant Uniforms& uniforms [[buffer(0)]]\n");
            extend_str(out, ") {\n");
            extend_str(out, "    RasterizerData msl_vertex_out;\n");
            let cnt = count_braces(&ls[i], '{');
            opens = cnt as u128;
            closes = 0;
            in_main = true;
            proof {
                assert(out@ =~= old(out)@ + st2.out);
            }
        } else {
            proof {
                reveal_strlit("mat3(");
                reveal_strlit("sm_to_m3(");
            }
            let p1 = chars_of("mat3(");
            let t1 = chars_of("sm_to_m3(");
            let w = replace(&ls[i], &p1, &t1);
            let w = replace_types(&w);
            let l1 = trim_chars(&w);
            if in_main {
                let co = count_braces(&l1, '{');
                let cc = count_braces(&l1, '}');
                opens = opens + co as u128;
                closes = closes + cc as u128;
                proof {
                    reveal_strlit("gl_Position");
                    reveal_strlit("msl_vertex_out.position");
                    reveal_strlit("v.");
                    reveal_strlit("uniforms.");
                    reveal_strlit("msl_vertex_out.");
                }
                let pg = chars_of("gl_Position");
                let tg = chars_of("msl_vertex_out.position");
                let l2 = replace(&l1, &pg, &tg);
                let pv = chars_of("v.");
                let l2 = qualify(&l2, anames, &pv);
                let pu = chars_of("uniforms.");
                let l2 = qualify(&l2, unames, &pu);
                let po = chars_of("msl_vertex_out.");
                let l2 = qualify(&l2, onames, &po);
                proof {
                    assert(l2@ == v_line_subst(l1@, adv, udv, odv));
                }
                if opens == closes {
                    if flip {
                        extend_str(
                            out,
                            "msl_vertex_out.position.y = -msl_vertex_out.position.y;\n",
                        );
                    }
                    extend_str(out, "return msl_vertex_out;\n");
                    extend_chars(out, &l2);
                    extend_str(out, "\n");
                    in_main = false;
                    proof {
                        if !flip {
                            assert(st.out + flip_text(flip) =~= st.out);
                        }
                        assert(out@ =~= old(out)@ + st2.out);
                    }
                } else {
                    extend_chars(out, &l2);
                    extend_str(out, "\n");
                    proof {
                        assert(out@ =~= old(out)@ + st2.out);
                    }
                }
            } else {
                extend_chars(out, &l1);
                extend_str(out, "\n");
                proof {
                    assert(out@ =~= old(out)@ + st2.out);
                }
            }
        }
        i = i + 1;
    }
}

// ---------------------------------------------------------------------
// idempotence of the qualification step
// ---------------------------------------------------------------------
/// Replacement leaves a text without an occurrence alone.
proof fn lemma_replace_none(s: Seq<char>, f: Seq<char>, t: Seq<char>)
    requires
        f.len() >= 1,
        !contains_seq(s, f),
    ensures
        replace_spec(s, f, t) == s,
    decreases s.len(),
{
    if s.len() >= f.len() {
        assert(!starts_with_at(s, f, 0));
        assert(s.subrange(0, f.len() as int) != f);
        let s1 = s.subrange(1, s.len() as int);
        assert(!contains_seq(s1, f)) by {
            if contains_seq(s1, f) {
                let i = choose|i: int| starts_with_at(s1, f, i);
                assert(s.subrange(i + 1, i + 1 + f.len()) =~= s1.subrange(i, i + f.len()));
                assert(starts_with_at(s, f, i + 1));
            }
        }
        lemma_replace_none(s1, f, t);
        assert(seq![s[0]] + s1 =~= s);
    }
}

/// Replacement around a leftmost occurrence: everything before it is
/// copied, the occurrence becomes the replacement, and the rest is
/// rewritten on its own.
proof fn lemma_replace_at(s: Seq<char>, f: Seq<char>, t: Seq<char>, k: int)
    requires
        f.len() >= 1,
        starts_with_at(s, f, k),
        forall|i: int| 0 <= i < k ==> !starts_with_at(s, f, i),
    ensures
        replace_spec(s, f, t) == s.subrange(0, k) + t + replace_spec(
            s.skip(k + f.len()),
            f,
            t,
        ),
    decreases k,
{
    if k == 0 {
        assert(s.subrange(0, f.len() as int) == f);
        assert(s.subrange(f.len() as int, s.len() as int) =~= s.skip(f.len() as int));
        assert(s.subrange(0, 0) + t + replace_spec(s.skip(f.len() as int), f, t) =~= t
            + replace_spec(s.skip(f.len() as int), f, t));
    } else {
        assert(!starts_with_at(s, f, 0));
        assert(s.len() >= f.len());
        assert(s.subrange(0, f.len() as int) != f) by {
            if s.subrange(0, f.len() as int) == f {
                assert(starts_with_at(s, f, 0));
            }
        }
        let s1 = s.subrange(1, s.len() as int);
        assert(starts_with_at(s1, f, k - 1)) by {
            assert(s1.subrange(k - 1, k - 1 + f.len()) =~= s.subrange(k, k + f.len()));
        }
        assert(forall|i: int| 0 <= i < k - 1 ==> !starts_with_at(s1, f, i)) by {
            assert forall|i: int| 0 <= i < k - 1 implies !starts_with_at(s1, f, i) by {
                if starts_with_at(s1, f, i) {
                    assert(s.subrange(i + 1, i + 1 + f.len()) =~= s1.subrange(i, i + f.len()));
                    assert(starts_with_at(s, f, i + 1));
                }
            }
        }
        lemma_replace_at(s1, f, t, k - 1);
        assert(s1.skip(k - 1 + f.len()) =~= s.skip(k + f.len()));
        assert(seq![s[0]] + (s1.subrange(0, k - 1) + t + replace_spec(s.skip(k + f.len()), f, t))
            =~= s.subrange(0, k) + t + replace_spec(s.skip(k + f.len()), f, t));
    }
}

/// The qualification step is idempotent on an identifier: one pass turns
/// the bare name into its struct-qualified form, and a second pass over
/// that output changes nothing — a qualified identifier is never doubled.
/// The name must not recur inside its own qualified form other than as
/// its tail, and the qualified form must not contain the doubled prefix;
/// a name that overlaps the prefix (a name ending in the prefix's first
/// letters, standing right after a copy of its own first letter) escapes
/// this law, as it escapes the rewriter.
pub proof fn lemma_qualify_idempotent(n: Seq<char>, p: Seq<char>)
    requires
        n.len() >= 1,
        p.len() >= 1,
        forall|i: int| starts_with_at(p + n, n, i) ==> i == p.len(),
        !contains_seq(p + n, p + p),
    ensures
        qualify_one(n, n, p) == p + n,
        qualify_one(qualify_one(n, n, p), n, p) == qualify_one(n, n, p),
{
    let pn = p + n;
    let pp = p + p;
    // first pass over the bare identifier
    assert(starts_with_at(n, n, 0)) by {
        assert(n.subrange(0, n.len() as int) =~= n);
    }
    lemma_replace_at(n, n, pn, 0);
    assert(n.skip(n.len() as int) =~= Seq::<char>::empty());
    assert(replace_spec(n, n, pn) =~= pn);
    assert(!contains_seq(pn, pp));
    lemma_replace_none(pn, pp, p);
    assert(qualify_one(n, n, p) == pn);
    // second pass over the qualified form
    assert(starts_with_at(pn, n, p.len() as int)) by {
        assert(pn.subrange(p.len() as int, (p.len() + n.len()) as int) =~= n);
    }
    lemma_replace_at(pn, n, pn, p.len() as int);
    assert(pn.subrange(0, p.len() as int) =~= p);
    assert(pn.skip((p.len() + n.len()) as int) =~= Seq::<char>::empty());
    assert(replace_spec(pn, n, pn) =~= p + pn);
    assert(starts_with_at(p + pn, pp, 0)) by {
        assert((p + pn).subrange(0, pp.len() as int) =~= pp);
    }
    lemma_replace_at(p + pn, pp, p, 0);
    assert((p + pn).skip(pp.len() as int) =~= n);
    assert(!contains_seq(n, pp)) by {
        if contains_seq(n, pp) {
            let i = choose|i: int| starts_with_at(n, pp, i);
            assert(pn.subrange(p.len() + i, p.len() + i + pp.len() as int) =~= n.subrange(
                i,
                i + pp.len(),
            ));
            assert(starts_with_at(pn, pp, p.len() + i));
        }
    }
    lemma_replace_none(n, pp, p);
    assert((p + pn).subrange(0, 0) + p + n =~= pn);
    assert(qualify_one(pn, n, p) == pn);
}

// ---------------------------------------------------------------------
// the fragment stage state machine
// ---------------------------------------------------------------------
/// The rewriter's state while walking the fragment stage's lines.
pub struct FSt {
    pub out: Seq<char>,
    pub in_main: bool,
    pub depth: int,
    pub mrt: bool,
    pub targets: Seq<(int, Seq<char>)>,
}

/// A `layout(location=N) out vec4 NAME` declaration of a render target.
pub open spec fn is_mrt_line(l: Seq<char>) -> bool {
    contains_seq(l, "layout"@) && contains_seq(l, "location"@) && contains_seq(l, "out"@)
}

/// The rest of a render-target line after `layout ( location =`.
pub open spec fn mrt_t4(l: Seq<char>) -> Seq<char> {
    eat_spec(eat_spec(eat_spec(eat_spec(l, "layout"@), "("@), "location"@), "="@)
}

/// The declared target index.
pub open spec fn mrt_loc(l: Seq<char>) -> int {
    i32_token_val(i32_tok(mrt_t4(l)))
}

/// The rest of a render-target line after `) out vec4`.
pub open spec fn mrt_t8(l: Seq<char>) -> Seq<char> {
    eat_spec(eat_spec(eat_spec(i32_rest(mrt_t4(l)), ")"@), "out"@), "vec4"@)
}

/// The declared target name.
pub open spec fn mrt_name(l: Seq<char>) -> Seq<char> {
    str_tok(mrt_t8(l))
}

/// A render-target line the parser can read without failing: each fixed
/// word in place, a valid integer index, and a non-empty name.
pub open spec fn wf_mrt_line(l: Seq<char>) -> bool {
    let t1 = eat_spec(l, "layout"@);
    let t2 = eat_spec(t1, "("@);
    let t3 = eat_spec(t2, "location"@);
    let t4 = eat_spec(t3, "="@);
    let t5 = i32_rest(t4);
    let t6 = eat_spec(t5, ")"@);
    let t7 = eat_spec(t6, "out"@);
    eat_ok(l, "layout"@) && eat_ok(t1, "("@) && eat_ok(t2, "location"@) && eat_ok(t3, "="@)
        && is_i32_token(i32_tok(t4)) && eat_ok(t5, ")"@) && eat_ok(t6, "out"@) && eat_ok(
        t7,
        "vec4"@,
    ) && mrt_name(l).len() >= 1
}

/// Reads a render-target declaration: its index and its name.
fn parse_mrt(line: &Vec<char>) -> (r: (i32, Vec<char>))
    requires
        wf_mrt_line(line@),
    ensures
        r.0 as int == mrt_loc(line@),
        r.1@ == mrt_name(line@),
{
    let mut cur = clone_chars(line);
    eat_string(&mut cur, "layout");
    eat_string(&mut cur, "(");
    eat_string(&mut cur, "location");
    eat_string(&mut cur, "=");
    let loc = get_i32(&mut cur);
    eat_string(&mut cur, ")");
    eat_string(&mut cur, "out");
    eat_string(&mut cur, "vec4");
    let name = get_string(&mut cur);
    (loc, name)
}

/// The fields of the synthesized `FragmentOutput` struct, one per declared
/// render target, in declaration order.
pub open spec fn mrt_fields(ts: Seq<(int, Seq<char>)>) -> Seq<char>
    decreases ts.len(),
{
    if ts.len() == 0 {
        Seq::empty()
    } else {
        mrt_fields(ts.drop_last()) + "    float4 "@ + ts.last().1 + " [[color("@ + dec_int(
            ts.last().0,
        ) + ")]];\n"@
    }
}

/// The synthesized `FragmentOutput` struct, present only under multiple
/// render targets.
pub open spec fn mrt_struct(mrt: bool, ts: Seq<(int, Seq<char>)>) -> Seq<char> {
    if mrt {
        "struct FragmentOutput {\n"@ + mrt_fields(ts) + "};\n"@
    } else {
        Seq::empty()
    }
}

/// The fragment entry point's return type.
pub open spec fn rt_name(mrt: bool) -> Seq<char> {
    if mrt {
        "FragmentOutput"@
    } else {
        "float4"@
    }
}

/// The resource type for a declared sampler kind: plain 2D unless declared
/// as a cube sampler.
pub open spec fn resource_type(o: Option<Seq<char>>) -> Seq<char> {
    match o {
        Option::None => "texture2d"@,
        Option::Some(t) => if t == "sampler2D"@ {
            "texture2d"@
        } else {
            "texturecube"@
        },
    }
}

/// The texture and sampler parameters of the fragment entry point, one
/// pair per image, bound at the image's index.
pub open spec fn img_params_from(
    images: Seq<Seq<char>>,
    snames: Seq<Seq<char>>,
    stypes: Seq<Seq<char>>,
    i: int,
) -> Seq<char>
    decreases images.len() - i,
{
    if i < 0 || i >= images.len() {
        Seq::empty()
    } else {
        "    "@ + resource_type(lookup_last(snames, stypes, images[i])) + "<float> "@ + images[i]
            + " [[texture("@ + dec_nat(i as nat) + ")]],\n"@ + "    sampler "@ + images[i]
            + "Smplr [[sampler("@ + dec_nat(i as nat) + ")]]"@ + (if i != images.len() - 1 {
            ",\n"@
        } else {
            Seq::empty()
        }) + img_params_from(images, snames, stypes, i + 1)
    }
}

/// Everything the fragment `main` marker emits: the optional target
/// struct, the entry header, and the texture/sampler bindings.
pub open spec fn frag_entry_text(
    mrt: bool,
    ts: Seq<(int, Seq<char>)>,
    images: Seq<Seq<char>>,
    snames: Seq<Seq<char>>,
    stypes: Seq<Seq<char>>,
) -> Seq<char> {
    mrt_struct(mrt, ts) + "fragment "@ + rt_name(mrt) + " fragmentShader(\n"@
        + "    RasterizerData in[[stage_in]],\n"@
        + "    constant Uniforms& uniforms [[buffer(0)]],\n"@ + img_params_from(
        images,
        snames,
        stypes,
        0,
    ) + ") {\n"@ + "    "@ + rt_name(mrt) + " msl_out_color;\n"@
}

/// Each declared render target renamed to its output-struct field.
pub open spec fn target_subst_from(l: Seq<char>, ts: Seq<(int, Seq<char>)>, i: int) -> Seq<char>
    decreases ts.len() - i,
{
    if i < 0 || i >= ts.len() {
        l
    } else {
        target_subst_from(replace_spec(l, ts[i].1, "msl_out_color."@ + ts[i].1), ts, i + 1)
    }
}

/// Each image's sampling calls rewritten to the struct-based calling
/// convention `image.sample(imageSmplr, ...)`.
pub open spec fn sample_subst_from(l: Seq<char>, images: Seq<Seq<char>>, i: int) -> Seq<char>
    decreases images.len() - i,
{
    if i < 0 || i >= images.len() {
        l
    } else {
        let img = images[i];
        let to = img + ".sample("@ + img + "Smplr"@;
        sample_subst_from(
            replace_spec(
                replace_spec(
                    replace_spec(l, "texture2D("@ + img, to),
                    "textureCube("@ + img,
                    to,
                ),
                "textureCubeLod("@ + img,
                to,
            ),
            images,
            i + 1,
        )
    }
}

/// One fragment body line after all its substitutions.
pub open spec fn f_line_subst(
    l1: Seq<char>,
    ts: Seq<(int, Seq<char>)>,
    anames: Seq<Seq<char>>,
    unames: Seq<Seq<char>>,
    onames: Seq<Seq<char>>,
    images: Seq<Seq<char>>,
) -> Seq<char> {
    sample_subst_from(
        qualify_all(
            qualify_all(
                qualify_all(
                    target_subst_from(
                        replace_spec(l1, "gl_FragColor"@, "msl_out_color"@),
                        ts,
                        0,
                    ),
                    anames,
                    "v."@,
                ),
                unames,
                "uniforms."@,
            ),
            onames,
            "in."@,
        ),
        images,
        0,
    )
}

/// One step of the fragment stage rewriter.
pub open spec fn f_step(
    st: FSt,
    l: Seq<char>,
    anames: Seq<Seq<char>>,
    unames: Seq<Seq<char>>,
    onames: Seq<Seq<char>>,
    images: Seq<Seq<char>>,
    snames: Seq<Seq<char>>,
    stypes: Seq<Seq<char>>,
) -> FSt {
    if skip_line(l) {
        st
    } else if is_mrt_line(l) {
        FSt {
            out: st.out,
            in_main: st.in_main,
            depth: st.depth,
            mrt: true,
            targets: st.targets.push((mrt_loc(l), mrt_name(l))),
        }
    } else if is_main_line(l) {
        FSt {
            out: st.out + frag_entry_text(st.mrt, st.targets, images, snames, stypes),
            in_main: true,
            depth: count_char(l, '{') as int,
            mrt: st.mrt,
            targets: st.targets,
        }
    } else {
        let l1 = replace_functions_spec(replace_types_spec(replace_spec(l, "mat3("@, "sm_to_m3("@)));
        if st.in_main {
            let d = st.depth + count_char(l1, '{') - count_char(l1, '}');
            let l2 = f_line_subst(l1, st.targets, anames, unames, onames, images);
            if d == 0 {
                FSt {
                    out: st.out + "return msl_out_color;\n"@ + l2 + "\n"@,
                    in_main: false,
                    depth: d,
                    mrt: st.mrt,
                    targets: st.targets,
                }
            } else {
                FSt {
                    out: st.out + l2 + "\n"@,
                    in_main: true,
                    depth: d,
                    mrt: st.mrt,
                    targets: st.targets,
                }
            }
        } else {
            FSt {
                out: st.out + l1 + "\n"@,
                in_main: st.in_main,
                depth: st.depth,
                mrt: st.mrt,
                targets: st.targets,
            }
        }
    }
}

/// The fragment stage rewriter folded over the first `i` lines.
pub open spec fn f_fold(
    ls: Seq<Seq<char>>,
    i: int,
    anames: Seq<Seq<char>>,
    unames: Seq<Seq<char>>,
    onames: Seq<Seq<char>>,
    images: Seq<Seq<char>>,
    snames: Seq<Seq<char>>,
    stypes: Seq<Seq<char>>,
) -> FSt
    decreases i,
{
    if i <= 0 {
        FSt { out: Seq::empty(), in_main: false, depth: 0, mrt: false, targets: Seq::empty() }
    } else {
        f_step(
            f_fold(ls, i - 1, anames, unames, onames, images, snames, stypes),
            ls[i - 1],
            anames,
            unames,
            onames,
            images,
            snames,
            stypes,
        )
    }
}

/// The ghost image of a collected render-target list.
pub open spec fn tview(v: Seq<(i32, Vec<char>)>) -> Seq<(int, Seq<char>)> {
    Seq::new(v.len(), |i: int| (v[i].0 as int, v[i].1@))
}

/// Each declared render target renamed to its output-struct field.
fn target_subst(l: &Vec<char>, targets: &Vec<(i32, Vec<char>)>) -> (r: Vec<char>)
    requires
        forall|k: int|
            0 <= k < tview(targets@).len() ==> (#[trigger] tview(targets@)[k]).1.len() >= 1,
    ensures
        r@ == target_subst_from(l@, tview(targets@), 0),
{
    let ghost tv = tview(targets@);
    let mut cur = clone_chars(l);
    let mut i: usize = 0;
    while i < targets.len()
        invariant
            i <= targets.len(),
            tv == tview(targets@),
            forall|k: int| 0 <= k < tv.len() ==> (#[trigger] tv[k]).1.len() >= 1,
            target_subst_from(cur@, tv, i as int) == target_subst_from(l@, tv, 0),
        decreases targets.len() - i,
    {
        proof {
            reveal_strlit("msl_out_color.");
            assert(tv[i as int].1 == targets@[i as int].1@);
        }
        let mut to = chars_of("msl_out_color.");
        extend_chars(&mut to, &targets[i].1);
        let c1 = replace(&cur, &targets[i].1, &to);
        cur = c1;
        i = i + 1;
    }
    cur
}

/// Each image's sampling calls rewritten to the struct-based convention.
fn sample_subst(l: &Vec<char>, images: &Vec<String>) -> (r: Vec<char>)
    ensures
        r@ == sample_subst_from(l@, images.deep_view(), 0),
{
    let ghost idv = images.deep_view();
    let mut cur = clone_chars(l);
    let mut i: usize = 0;
    while i < images.len()
        invariant
            i <= images.len(),
            idv == images.deep_view(),
            sample_subst_from(cur@, idv, i as int) == sample_subst_from(l@, idv, 0),
        decreases images.len() - i,
    {
        proof {
            reveal_strlit("texture2D(");
            reveal_strlit("textureCube(");
            reveal_strlit("textureCubeLod(");
            assert(idv[i as int] == images@[i as int]@);
        }
        let img = chars_of(images[i].as_str());
        let mut p1 = chars_of("texture2D(");
        extend_chars(&mut p1, &img);
        let mut p2 = chars_of("textureCube(");
        extend_chars(&mut p2, &img);
        let mut p3 = chars_of("textureCubeLod(");
        extend_chars(&mut p3, &img);
        let mut to = clone_chars(&img);
        extend_str(&mut to, ".sample(");
        extend_chars(&mut to, &img);
        extend_str(&mut to, "Smplr");
        proof {
            assert(to@ =~= idv[i as int] + ".sample("@ + idv[i as int] + "Smplr"@);
        }
        let c1 = replace(&cur, &p1, &to);
        let c2 = replace(&c1, &p2, &to);
        let c3 = replace(&c2, &p3, &to);
        cur = c3;
        i = i + 1;
    }
    cur
}

/// Appends the texture and sampler parameters of the fragment entry point.
#[verifier::rlimit(100)]
fn emit_img_params(
    out: &mut Vec<char>,
    images: &Vec<String>,
    snames: &Vec<Vec<char>>,
    stypes: &Vec<Vec<char>>,
)
    requires
        snames.len() == stypes.len(),
    ensures
        final(out)@ == old(out)@ + img_params_from(
            images.deep_view(),
            snames.deep_view(),
            stypes.deep_view(),
            0,
        ),
{
    let ghost idv = images.deep_view();
    let ghost total = old(out)@ + img_params_from(idv, snames.deep_view(), stypes.deep_view(), 0);
    let mut i: usize = 0;
    while i < images.len()
        invariant
            i <= images.len(),
            idv == images.deep_view(),
            snames.len() == stypes.len(),
            total == old(out)@ + img_params_from(idv, snames.deep_view(), stypes.deep_view(), 0),
            total == out@ + img_params_from(idv, snames.deep_view(), stypes.deep_view(), i as int),
        decreases images.len() - i,
    {
        proof {
            assert(idv[i as int] == images@[i as int]@);
        }
        let img = chars_of(images[i].as_str());
        extend_str(out, "    ");
        let looked = lookup_tex(snames, stypes, &img);
        let is2d: bool = match &looked {
            Option::None => true,
            Option::Some(t) => {
                proof {
                    reveal_strlit("sampler2D");
                }
                let s2d = chars_of("sampler2D");
                eq_chars(t, &s2d)
            },
        };
        if is2d {
            extend_str(out, "texture2d");
        } else {
            extend_str(out, "texturecube");
        }
        proof {
            assert((if is2d {
                "texture2d"@
            } else {
                "texturecube"@
            }) == resource_type(
                lookup_last(snames.deep_view(), stypes.deep_view(), idv[i as int]),
            ));
        }
        extend_str(out, "<float> ");
        extend_chars(out, &img);
        extend_str(out, " [[texture(");
        let d = dec_u64(i as u64);
        extend_chars(out, &d);
        extend_str(out, ")]],\n");
        extend_str(out, "    sampler ");
        extend_chars(out, &img);
        extend_str(out, "Smplr [[sampler(");
        extend_chars(out, &d);
        extend_str(out, ")]]");
        if i != images.len() - 1 {
            extend_str(out, ",\n");
        }
        i = i + 1;
        proof {
            if i as int == idv.len() {
                assert(img_params_from(idv, snames.deep_view(), stypes.deep_view(), i as int)
                    =~= Seq::<char>::empty());
            }
            assert(total =~= out@ + img_params_from(
                idv,
                snames.deep_view(),
                stypes.deep_view(),
                i as int,
            ));
        }
    }
    proof {
        assert(img_params_from(idv, snames.deep_view(), stypes.deep_view(), i as int)
            =~= Seq::<char>::empty());
        assert(final(out)@ =~= total);
    }
}

#[verifier::rlimit(100)]
#[verifier::spinoff_prover]
fn emit_fragment_body(
    out: &mut Vec<char>,
    ls: &Vec<Vec<char>>,
    anames: &Vec<Vec<char>>,
    unames: &Vec<Vec<char>>,
    onames: &Vec<Vec<char>>,
    images: &Vec<String>,
    snames: &Vec<Vec<char>>,
    stypes: &Vec<Vec<char>>,
)
    requires
        forall|k: int|
            0 <= k < anames.deep_view().len() ==> (#[trigger] anames.deep_view()[k]).len() >= 1,
        forall|k: int|
            0 <= k < unames.deep_view().len() ==> (#[trigger] unames.deep_view()[k]).len() >= 1,
        forall|k: int|
            0 <= k < onames.deep_view().len() ==> (#[trigger] onames.deep_view()[k]).len() >= 1,
        snames.len() == stypes.len(),
        forall|k: int|
            0 <= k < ls.deep_view().len() && !skip_line(#[trigger] ls.deep_view()[k]) && is_mrt_line(
                ls.deep_view()[k],
            ) ==> wf_mrt_line(ls.deep_view()[k]),
    ensures
        final(out)@ == old(out)@ + f_fold(
            ls.deep_view(),
            ls.deep_view().len() as int,
            anames.deep_view(),
            unames.deep_view(),
            onames.deep_view(),
            images.deep_view(),
            snames.deep_view(),
            stypes.deep_view(),
        ).out,
{
    let ghost lsdv = ls.deep_view();
    let ghost adv = anames.deep_view();
    let ghost udv = unames.deep_view();
    let ghost odv = onames.deep_view();
    let ghost idv = images.deep_view();
    let ghost sndv = snames.deep_view();
    let ghost stdv = stypes.deep_view();
    let mut in_main: bool = false;
    let mut mrt: bool = false;
    let mut targets: Vec<(i32, Vec<char>)> = Vec::new();
    let mut opens: u128 = 0;
    let mut closes: u128 = 0;
    let mut i: usize = 0;
    proof {
        assert(tview(targets@) =~= Seq::<(int, Seq<char>)>::empty());
    }
    while i < ls.len()
        invariant
            i <= ls.len(),
            lsdv == ls.deep_view(),
            adv == anames.deep_view(),
            udv == unames.deep_view(),
            odv == onames.deep_view(),
            idv == images.deep_view(),
            sndv == snames.deep_view(),
            stdv == stypes.deep_view(),
            snames.len() == stypes.len(),
            forall|k: int| 0 <= k < adv.len() ==> (#[trigger] adv[k]).len() >= 1,
            forall|k: int| 0 <= k < udv.len() ==> (#[trigger] udv[k]).len() >= 1,
            forall|k: int| 0 <= k < odv.len() ==> (#[trigger] odv[k]).len() >= 1,
            forall|k: int|
                0 <= k < lsdv.len() && !skip_line(#[trigger] lsdv[k]) && is_mrt_line(lsdv[k])
                    ==> wf_mrt_line(lsdv[k]),
            out@ == old(out)@ + f_fold(lsdv, i as int, adv, udv, odv, idv, sndv, stdv).out,
            in_main == f_fold(lsdv, i as int, adv, udv, odv, idv, sndv, stdv).in_main,
            mrt == f_fold(lsdv, i as int, adv, udv, odv, idv, sndv, stdv).mrt,
            tview(targets@) == f_fold(lsdv, i as int, adv, udv, odv, idv, sndv, stdv).targets,
            opens - closes == f_fold(lsdv, i as int, adv, udv, odv, idv, sndv, stdv).depth,
            opens <= (i as int) * 0x1_0000_0000_0000_0000,
            closes <= (i as int) * 0x1_0000_0000_0000_0000,
            forall|k: int|
                0 <= k < tview(targets@).len() ==> (#[trigger] tview(targets@)[k]).1.len() >= 1,
        decreases ls.len() - i,
    {
        let ghost st = f_fold(lsdv, i as int, adv, udv, odv, idv, sndv, stdv);
        let ghost st2 = f_fold(lsdv, i as int + 1, adv, udv, odv, idv, sndv, stdv);
        proof {
            assert(st2 == f_step(st, lsdv[i as int], adv, udv, odv, idv, sndv, stdv));
            assert(lsdv[i as int] =~= ls@[i as int]@);
            reveal_strlit("uniform");
            reveal_strlit("attribute");
            reveal_strlit("varying");
            reveal_strlit("void main()");
            reveal_strlit("layout");
            reveal_strlit("location");
            reveal_strlit("out");
        }
        let kw1 = chars_of("uniform");
        let kw2 = chars_of("attribute");
        let kw3 = chars_of("varying");
        let kwm = chars_of("void main()");
        let kwl1 = chars_of("layout");
        let kwl2 = chars_of("location");
        let kwl3 = chars_of("out");
        if contains(&ls[i], &kw1) || contains(&ls[i], &kw2) || contains(&ls[i], &kw3) {
            proof {
                assert(st2 == st);
            }
        } else if contains(&ls[i], &kwl1) && contains(&ls[i], &kwl2) && contains(&ls[i], &kwl3) {
            let parsed = parse_mrt(&ls[i]);
            let ghost otv = tview(targets@);
            targets.push(parsed);
            mrt = true;
            proof {
                assert(tview(targets@) =~~= otv.push(
                    (mrt_loc(lsdv[i as int]), mrt_name(lsdv[i as int])),
                ));
            }
        } else if contains(&ls[i], &kwm) {
            // the synthesized target struct, under multiple render targets
            if mrt {
                extend_str(out, "struct FragmentOutput {\n");
                let ghost base2 = out@;
                let mut k: usize = 0;
                proof {
                    assert(base2 + mrt_fields(tview(targets@).subrange(0, 0)) =~= base2);
                }
                while k < targets.len()
                    invariant
                        k <= targets.len(),
                        out@ == base2 + mrt_fields(tview(targets@).subrange(0, k as int)),
                    decreases targets.len() - k,
                {
                    extend_str(out, "    float4 ");
                    extend_chars(out, &targets[k].1);
                    extend_str(out, " [[color(");
                    let d = dec_i64(targets[k].0 as i64);
                    extend_chars(out, &d);
                    extend_str(out, ")]];\n");
                    k = k + 1;
                    proof {
                        assert(tview(targets@).subrange(0, k as int).drop_last() =~= tview(
                            targets@,
                        ).subrange(0, k - 1));
                        assert(tview(targets@).subrange(0, k as int).last() == (
                            targets@[k - 1].0 as int,
                            targets@[k - 1].1@,
                        ));
                        assert(out@ =~= base2 + mrt_fields(tview(targets@).subrange(0, k as int)));
                    }
                }
                extend_str(out, "};\n");
                proof {
                    assert(tview(targets@).subrange(0, targets@.len() as int) =~= tview(targets@));
                }
            }
            if mrt {
                extend_str(out, "fragment ");
                extend_str(out, "FragmentOutput");
                extend_str(out, " fragmentShader(\n");
            } else {
                extend_str(out, "fragment ");
                extend_str(out, "float4");
                extend_str(out, " fragmentShader(\n");
            }
            extend_str(out, "    RasterizerData in[[stage_in]],\n");
            extend_str(out, "    constant Uniforms& uniforms [[buffer(0)]],\n");
            emit_img_params(out, images, snames, stypes);
            extend_str(out, ") {\n");
            extend_str(out, "    ");
            if mrt {
                extend_str(out, "FragmentOutput");
            } else {
                extend_str(out, "float4");
            }
            extend_str(out, " msl_out_color;\n");
            let cnt = count_braces(&ls[i], '{');
            opens = cnt as u128;
            closes = 0;
            in_main = true;
            proof {
                assert(out@ =~= old(out)@ + st2.out);
            }
        } else {
            proof {
                reveal_strlit("mat3(");
                reveal_strlit("sm_to_m3(");
            }
            let p1 = chars_of("mat3(");
            let t1 = chars_of("sm_to_m3(");
            let w = replace(&ls[i], &p1, &t1);
            let w = replace_types(&w);
            let l1 = replace_functions(&w);
            if in_main {
                let co = count_braces(&l1, '{');
                let cc = count_braces(&l1, '}');
                opens = opens + co as u128;
                closes = closes + cc as u128;
                proof {
                    reveal_strlit("gl_FragColor");
                    reveal_strlit("msl_out_color");
                    reveal_strlit("v.");
                    reveal_strlit("uniforms.");
                    reveal_strlit("in.");
                }
                let pg = chars_of("gl_FragColor");
                let tg = chars_of("msl_out_color");
                let l2 = replace(&l1, &pg, &tg);
                let l2 = target_subst(&l2, &targets);
                let pv = chars_of("v.");
                let l2 = qualify(&l2, anames, &pv);
                let pu = chars_of("uniforms.");
                let l2 = qualify(&l2, unames, &pu);
                let po = chars_of("in.");
                let l2 = qualify(&l2, onames, &po);
                let l2 = sample_subst(&l2, images);
                proof {
                    assert(l2@ == f_line_subst(l1@, st.targets, adv, udv, odv, idv));
                }
                if opens == closes {
                    extend_str(out, "return msl_out_color;\n");
                    extend_chars(out, &l2);
                    extend_str(out, "\n");
                    in_main = false;
                    proof {
                        assert(out@ =~= old(out)@ + st2.out);
                    }
                } else {
                    extend_chars(out, &l2);
                    extend_str(out, "\n");
                    proof {
                        assert(out@ =~= old(out)@ + st2.out);
                    }
                }
            } else {
                extend_chars(out, &l1);
                extend_str(out, "\n");
                proof {
                    assert(out@ =~= old(out)@ + st2.out);
                }
            }
        }
        i = i + 1;
    }
}

// ---------------------------------------------------------------------
// the whole emitter
// ---------------------------------------------------------------------
/// The fixed preamble: standard-library include, namespace declaration,
/// the requested `#define`s, the `sm_to_m3` helpers and the LOD macro.
pub open spec fn msl_preamble(ds: Seq<Seq<char>>) -> Seq<char> {
    "#include <metal_stdlib>\n"@ + "using namespace metal;\n"@ + "#define __METAL 1\n"@
        + crate::glsl::defines_block(ds)
        + "float3x3 sm_to_m3(float3 v0, float3 v1, float3 v2) {return float3x3(v0, v1, v2);}\n"@
        + "float3x3 sm_to_m3(float4x4 m) {return float3x3(m[0].xyz, m[1].xyz, m[2].xyz);}\n"@
        + "#define sm_level(x) level(x)\n"@
}

/// The `textureSize` shim emitted between the two stage bodies.
pub open spec fn texsize_text() -> Seq<char> {
    "float2 textureSize(texture2d<float> t, int x) {return float2(t.get_width(), t.get_height());}\n"@
}

/// A declared sampler kind the original emitter accepts.
pub open spec fn sampler_kind_ok(o: Option<Seq<char>>) -> bool {
    match o {
        Option::None => true,
        Option::Some(t) => t == "sampler2D"@ || t == "samplerCube"@,
    }
}

/// Inputs on which the struct-based emitter runs to completion: every
/// scanned declaration has its tokens in place, every render-target
/// declaration parses, every sampler kind is a known one, uniform names
/// are non-empty, and the text stays within the brace counter's range.
pub open spec fn wf_metal(fragment: Seq<char>, vertex: Seq<char>, meta: ShaderMetaV) -> bool {
    let vls = spec_lines(vertex);
    let fls = spec_lines(fragment);
    &&& forall|i: int|
        0 <= i < vls.len() && contains_seq(#[trigger] vls[i], "attribute"@) ==> wf_decl_line(
            vls[i],
        )
    &&& forall|i: int|
        0 <= i < vls.len() && contains_seq(#[trigger] vls[i], "varying"@) ==> wf_decl_line(vls[i])
    &&& forall|i: int|
        0 <= i < fls.len() && contains_seq(#[trigger] fls[i], "uniform sampler"@) ==> wf_samp_line(
            fls[i],
        )
    &&& forall|i: int|
        0 <= i < fls.len() && !skip_line(#[trigger] fls[i]) && is_mrt_line(fls[i])
            ==> wf_mrt_line(fls[i])
    &&& forall|i: int|
        0 <= i < meta.uniforms.len() ==> (#[trigger] meta.uniforms[i]).name.len() >= 1
    &&& forall|i: int|
        0 <= i < meta.images.len() ==> sampler_kind_ok(
            lookup_last(samp_names(fls), samp_types(fls), #[trigger] meta.images[i]),
        )
    &&& vertex.len() < 0x8000_0000
    &&& fragment.len() < 0x8000_0000
}

/// The whole struct-based backend text for one vertex/fragment pair.
pub open spec fn spec_metal(
    fragment: Seq<char>,
    vertex: Seq<char>,
    meta: ShaderMetaV,
    defines: Seq<Seq<char>>,
    flip: bool,
) -> Seq<char> {
    let vls = spec_lines(vertex);
    let fls = spec_lines(fragment);
    let anames = decl_names(vls, "attribute"@);
    let onames = decl_names(vls, "varying"@);
    let unames = u_names(meta.uniforms);
    let snames = samp_names(fls);
    let stypes = samp_types(fls);
    msl_preamble(defines) + uniforms_struct_text(meta.uniforms) + "struct Vertex {\n"@
        + struct_fields(vls, "attribute"@) + "};\n"@ + "struct RasterizerData {\n"@
        + "    float4 position [[position]];\n"@ + struct_fields(vls, "varying"@) + "};\n"@
        + v_fold(vls, vls.len() as int, anames, unames, onames, flip).out + texsize_text()
        + f_fold(fls, fls.len() as int, anames, unames, onames, meta.images, snames, stypes).out
}

/// The names a declaration scan collects are never empty.
proof fn lemma_decl_names_nonempty(ls: Seq<Seq<char>>, kw: Seq<char>)
    requires
        forall|i: int|
            0 <= i < ls.len() && contains_seq(#[trigger] ls[i], kw) ==> wf_decl_line(ls[i]),
    ensures
        forall|k: int|
            0 <= k < decl_names(ls, kw).len() ==> (#[trigger] decl_names(ls, kw)[k]).len() >= 1,
    decreases ls.len(),
{
    if ls.len() > 0 {
        assert(forall|i: int|
            0 <= i < ls.drop_last().len() && contains_seq(#[trigger] ls.drop_last()[i], kw)
                ==> wf_decl_line(ls.drop_last()[i])) by {
            assert(forall|i: int| 0 <= i < ls.drop_last().len() ==> ls.drop_last()[i] == ls[i]);
        }
        lemma_decl_names_nonempty(ls.drop_last(), kw);
        let names = decl_names(ls, kw);
        let prev = decl_names(ls.drop_last(), kw);
        if contains_seq(ls.last(), kw) {
            assert(ls.last() == ls[ls.len() - 1]);
            assert(wf_decl_line(ls.last()));
            assert(names == prev + seq![decl_tokens(ls.last())[2]]);
            assert forall|k: int| 0 <= k < names.len() implies (#[trigger] names[k]).len()
                >= 1 by {
                if k < prev.len() {
                    assert(names[k] == prev[k]);
                } else {
                    assert(names[k] == decl_tokens(ls.last())[2]);
                }
            }
        } else {
            assert(names =~= prev);
        }
    }
}

/// The sampler name/kind scans stay aligned.
proof fn lemma_samp_same_len(ls: Seq<Seq<char>>)
    ensures
        samp_names(ls).len() == samp_types(ls).len(),
    decreases ls.len(),
{
    if ls.len() > 0 {
        lemma_samp_same_len(ls.drop_last());
    }
}

/// The struct-based backend emitter.  Assembles the preamble, the three
/// synthesized structs, the rewritten vertex body, the `textureSize` shim
/// and the rewritten fragment body, in that order.
pub fn metal(fragment: &str, vertex: &str, meta: &ShaderMeta, options: &crate::glsl::Options) -> (r:
    String)
    requires
        wf_metal(fragment@, vertex@, meta@),
    ensures
        r@ == spec_metal(
            fragment@,
            vertex@,
            meta@,
            options.defines.deep_view(),
            options.metal_flip_y,
        ),
{
    let mut out = chars_of("#include <metal_stdlib>\n");
    extend_str(&mut out, "using namespace metal;\n");
    extend_str(&mut out, "#define __METAL 1\n");
    crate::glsl::defines_block_exec(&mut out, &options.defines);
    extend_str(
        &mut out,
        "float3x3 sm_to_m3(float3 v0, float3 v1, float3 v2) {return float3x3(v0, v1, v2);}\n",
    );
    extend_str(
        &mut out,
        "float3x3 sm_to_m3(float4x4 m) {return float3x3(m[0].xyz, m[1].xyz, m[2].xyz);}\n",
    );
    extend_str(&mut out, "#define sm_level(x) level(x)\n");
    emit_uniforms_struct(&mut out, meta);
    let vv = chars_of(vertex);
    let vls = split_lines(&vv);
    let fv = chars_of(fragment);
    let fls = split_lines(&fv);
    proof {
        reveal_strlit("attribute");
        reveal_strlit("varying");
    }
    extend_str(&mut out, "struct Vertex {\n");
    let attributes = scan_decls(&mut out, &vls, "attribute");
    extend_str(&mut out, "};\n");
    extend_str(&mut out, "struct RasterizerData {\n");
    extend_str(&mut out, "    float4 position [[position]];\n");
    let outs = scan_decls(&mut out, &vls, "varying");
    extend_str(&mut out, "};\n");
    let unames = uniform_names(meta);
    proof {
        lemma_decl_names_nonempty(vls.deep_view(), "attribute"@);
        lemma_decl_names_nonempty(vls.deep_view(), "varying"@);
        assert(forall|k: int|
            0 <= k < unames.deep_view().len() ==> (#[trigger] unames.deep_view()[k]).len() >= 1);
    }
    emit_vertex_body(&mut out, &vls, &attributes, &unames, &outs, options.metal_flip_y);
    extend_str(
        &mut out,
        "float2 textureSize(texture2d<float> t, int x) {return float2(t.get_width(), t.get_height());}\n",
    );
    let (snames, stypes) = collect_texture_types(&fls);
    proof {
        lemma_samp_same_len(fls.deep_view());
    }
    emit_fragment_body(
        &mut out,
        &fls,
        &attributes,
        &unames,
        &outs,
        &meta.images,
        &snames,
        &stypes,
    );
    proof {
        assert(out@ =~= spec_metal(
            fragment@,
            vertex@,
            meta@,
            options.defines.deep_view(),
            options.metal_flip_y,
        ));
    }
    string_of(&out)
}

} // verus!
