//! The trusted boundary to the outside crates.
//!
//! Everything this crate assumes about `hcl`, the serde crates, the digest
//! crates, `base64`, `bcrypt` and `uuid` is collected here: declared outside
//! types, named results, and `external_body` wrappers whose contracts Verus
//! believes. Each wrapper's doc comment names the outside function it relies
//! on.

use vstd::prelude::*;

use base64::Engine;
use sha2::Digest;

use crate::document::Attribute;
use crate::document::Block;
use crate::document::Document;
use crate::document::Expr;
use crate::document::Structure;
use crate::functions::BuiltinId;
use crate::functions::invoke;
use crate::errors::FnError;
use crate::scope::EvalContext;

use crate::value::SpecValue;
use crate::value::Val;

verus! {

/// What `str::to_lowercase` returns; a function of the characters alone.
pub uninterp spec fn lower_of(s: Seq<char>) -> Seq<char>;

/// What `str::to_uppercase` returns; a function of the characters alone.
pub uninterp spec fn upper_of(s: Seq<char>) -> Seq<char>;

/// What `str::trim` returns; a function of the characters alone.
pub uninterp spec fn trimmed_of(s: Seq<char>) -> Seq<char>;

/// The MD5 digest of a string's bytes.
pub uninterp spec fn md5_of(s: Seq<char>) -> Seq<u8>;

/// The SHA-1 digest of a string's bytes.
pub uninterp spec fn sha1_of(s: Seq<char>) -> Seq<u8>;

/// The SHA-256 digest of a string's bytes.
pub uninterp spec fn sha256_of(s: Seq<char>) -> Seq<u8>;

/// The SHA-512 digest of a string's bytes.
pub uninterp spec fn sha512_of(s: Seq<char>) -> Seq<u8>;

/// The standard, padded base64 encoding of a string's bytes.
pub uninterp spec fn b64_of(s: Seq<char>) -> Seq<char>;

/// What serializing a value as YAML returns; a function of the value alone.
pub uninterp spec fn yaml_of(v: SpecValue) -> Seq<char>;

/// What parsing a string as YAML returns; a function of the text alone.
pub uninterp spec fn yaml_parsed(s: Seq<char>) -> Option<SpecValue>;

/// What serializing a value as JSON returns; a function of the value alone.
pub uninterp spec fn json_of(v: SpecValue) -> Seq<char>;

/// What parsing a string as JSON returns; a function of the text alone.
pub uninterp spec fn json_parsed(s: Seq<char>) -> Option<SpecValue>;

/// The version-5 UUID of a namespace UUID (in textual form) and a name.
pub uninterp spec fn uuid5_of(ns: Seq<char>, name: Seq<char>) -> Seq<char>;

/// The number a machine integer converts to.
pub uninterp spec fn num_of_u64(n: u64) -> hcl::Number;

/// The UTF-8 encoded length of one character.
pub open spec fn char_utf8_len(c: char) -> int {
    if (c as u32) < 0x80 {
        1
    } else if (c as u32) < 0x800 {
        2
    } else if (c as u32) < 0x10000 {
        3
    } else {
        4
    }
}

/// The UTF-8 encoded length of a character sequence.
pub open spec fn utf8_byte_len(s: Seq<char>) -> int
    decreases s.len(),
{
    if s.len() == 0 {
        0
    } else {
        utf8_byte_len(s.drop_last()) + char_utf8_len(s.last())
    }
}

/// Relies on `str::len`: a string's length in bytes is the length of its
/// UTF-8 encoding.
#[verifier::external_body]
pub fn str_byte_len(s: &String) -> (r: usize)
    ensures
        r == utf8_byte_len(s@),
{
    s.len()
}

/// Relies on `str::to_lowercase`.
#[verifier::external_body]
pub fn lower_string(s: &String) -> (r: String)
    ensures
        r@ == lower_of(s@),
{
    s.to_lowercase()
}

/// Relies on `str::to_uppercase`.
#[verifier::external_body]
pub fn upper_string(s: &String) -> (r: String)
    ensures
        r@ == upper_of(s@),
{
    s.to_uppercase()
}

/// Relies on `str::trim`: leading and trailing whitespace removed.
#[verifier::external_body]
pub fn trim_string(s: &String) -> (r: String)
    ensures
        r@ == trimmed_of(s@),
{
    s.trim().to_string()
}

/// Relies on the `md-5` crate's `Md5` digest of the string's bytes.
#[verifier::external_body]
pub fn md5_digest(s: &String) -> (r: Vec<u8>)
    ensures
        r@ == md5_of(s@),
{
    let mut hasher = md5::Md5::new();
    hasher.update(s.as_bytes());
    hasher.finalize().to_vec()
}

/// Relies on the `sha1` crate's `Sha1` digest of the string's bytes.
#[verifier::external_body]
pub fn sha1_digest(s: &String) -> (r: Vec<u8>)
    ensures
        r@ == sha1_of(s@),
{
    let mut hasher = sha1::Sha1::new();
    hasher.update(s.as_bytes());
    hasher.finalize().to_vec()
}

/// Relies on the `sha2` crate's `Sha256` digest of the string's bytes.
#[verifier::external_body]
pub fn sha256_digest(s: &String) -> (r: Vec<u8>)
    ensures
        r@ == sha256_of(s@),
{
    let mut hasher = sha2::Sha256::new();
    hasher.update(s.as_bytes());
    hasher.finalize().to_vec()
}

/// Relies on the `sha2` crate's `Sha512` digest of the string's bytes.
#[verifier::external_body]
pub fn sha512_digest(s: &String) -> (r: Vec<u8>)
    ensures
        r@ == sha512_of(s@),
{
    let mut hasher = sha2::Sha512::new();
    hasher.update(s.as_bytes());
    hasher.finalize().to_vec()
}

/// Relies on `String::push`: appends one character.
#[verifier::external_body]
pub fn push_char(s: &mut String, c: char)
    ensures
        final(s)@ == old(s)@.push(c),
{
    s.push(c);
}

/// Relies on `base64::engine::Engine::encode` with the standard padded
/// alphabet.
#[verifier::external_body]
pub fn b64_encode(s: &String) -> (r: String)
    ensures
        r@ == b64_of(s@),
{
    base64::engine::general_purpose::STANDARD.encode(s.as_bytes())
}

/// Relies on `base64::engine::Engine::decode` with the standard padded
/// alphabet, which requires canonical padding and rejects set trailing bits:
/// a successful decode therefore re-encodes to exactly the input.
#[verifier::external_body]
pub fn b64_decode(s: &String) -> (r: Result<String, String>)
    ensures
        (r matches Ok(d) ==> b64_of(d@) == s@),
{
    let decoded = base64::engine::general_purpose::STANDARD.decode(s.as_bytes()).map_err(|e| {
        format!("Failed to decode base64: {e}")
    })?;
    String::from_utf8(decoded).map_err(|e| {
        format!("Failed to convert decoded bytes to string: {e}")
    })
}

/// Relies on the `bcrypt` crate's `hash`: the result is salted at random, so
/// nothing is promised of it.
#[verifier::external_body]
pub fn bcrypt_hash(s: &String, cost: u32) -> (r: Result<String, String>) {
    bcrypt::hash(s, cost).map_err(|e| format!("Failed to hash string with bcrypt: {e}"))
}

/// Relies on `uuid::Uuid::new_v4`: the result is random, so nothing is
/// promised of it.
#[verifier::external_body]
pub fn uuid_v4() -> (r: String) {
    uuid::Uuid::new_v4().to_string()
}

/// Relies on `uuid::Uuid::parse_str` and `uuid::Uuid::new_v5`: on a parsable
/// namespace the result is a function of the two arguments.
#[verifier::external_body]
pub fn uuid_v5(ns: &String, name: &String) -> (r: Result<String, String>)
    ensures
        (r matches Ok(u) ==> u@ == uuid5_of(ns@, name@)),
{
    let ns = uuid::Uuid::parse_str(ns).map_err(|e| format!("Failed to parse UUID: {e}"))?;
    Ok(uuid::Uuid::new_v5(&ns, name.as_bytes()).to_string())
}

/// Relies on `hcl::Number::as_u64`; the number stays opaque, so nothing is
/// promised of the result.
pub assume_specification[ hcl::Number::as_u64 ](n: &hcl::Number) -> (r: Option<u64>)
;

/// Relies on `From<u64> for hcl::Number`: the number a `u64` converts to.
#[verifier::external_body]
pub fn number_from_u64(n: u64) -> (r: hcl::Number)
    ensures
        r == num_of_u64(n),
{
    hcl::Number::from(n)
}

/// Relies on `serde_yml::to_string` on the hcl value form of `v`, trimmed as
/// the builtin requires; a function of the value alone.
#[verifier::external_body]
pub fn yaml_encode_value(v: &Val) -> (r: Result<String, String>)
    ensures
        (r matches Ok(t) ==> t@ == yaml_of(v@)),
{
    let hv = value_to_hcl(v);
    match serde_yml::to_string(&hv) {
        Ok(t) => Ok(t.trim().to_string()),
        Err(e) => Err(format!("Failed to serialize YAML: {e}")),
    }
}

/// Relies on `serde_yml::from_str` into an hcl value; a function of the text
/// alone, returning a value exactly when the text parses.
#[verifier::external_body]
pub fn yaml_decode_value(s: &String) -> (r: Result<Val, String>)
    ensures
        (r matches Ok(v) ==> yaml_parsed(s@) == Some(v@)),
        (r is Err ==> yaml_parsed(s@) is None),
{
    let hv: hcl::Value = serde_yml::from_str(s).map_err(|e| {
        format!("Failed to deserialize YAML: {e}")
    })?;
    Ok(hcl_to_value(hv))
}

/// Relies on `serde_json::to_string` on the hcl value form of `v`; a function
/// of the value alone.
#[verifier::external_body]
pub fn json_encode_value(v: &Val) -> (r: Result<String, String>)
    ensures
        (r matches Ok(t) ==> t@ == json_of(v@)),
{
    let hv = value_to_hcl(v);
    match serde_json::to_string(&hv) {
        Ok(t) => Ok(t.trim().to_string()),
        Err(e) => Err(format!("Failed to serialize JSON: {e}")),
    }
}

/// Relies on `serde_json::from_str` into an hcl value; a function of the text
/// alone, returning a value exactly when the text parses.
#[verifier::external_body]
pub fn json_decode_value(s: &String) -> (r: Result<Val, String>)
    ensures
        (r matches Ok(v) ==> json_parsed(s@) == Some(v@)),
        (r is Err ==> json_parsed(s@) is None),
{
    let hv: hcl::Value = serde_json::from_str(s).map_err(|e| {
        format!("Failed to deserialize JSON: {e}")
    })?;
    Ok(hcl_to_value(hv))
}

/// Converts a library value into hcl's value form, one variant to one.
#[verifier::external_body]
fn value_to_hcl(v: &Val) -> hcl::Value {
    match v {
        Val::Null => hcl::Value::Null,
        Val::Bool(b) => hcl::Value::Bool(*b),
        Val::Num(n) => hcl::Value::Number(*n),
        Val::Str(s) => hcl::Value::String(s.clone()),
        Val::Arr(items) => hcl::Value::Array(items.iter().map(value_to_hcl).collect()),
        Val::Obj(pairs) => hcl::Value::Object(
            pairs.iter().map(|(k, v)| (k.clone(), value_to_hcl(v))).collect(),
        ),
    }
}

/// Converts hcl's value form into a library value, one variant to one.
#[verifier::external_body]
fn hcl_to_value(v: hcl::Value) -> Val {
    match v {
        hcl::Value::Null => Val::Null,
        hcl::Value::Bool(b) => Val::Bool(b),
        hcl::Value::Number(n) => Val::Num(n),
        hcl::Value::String(s) => Val::Str(s),
        hcl::Value::Array(items) => Val::Arr(items.into_iter().map(hcl_to_value).collect()),
        hcl::Value::Object(pairs) => Val::Obj(
            pairs.into_iter().map(|(k, v)| (k, hcl_to_value(v))).collect(),
        ),
    }
}

/// Declares hcl's function-argument list, handed to the glue functions by
/// hcl's evaluator.
#[verifier::external_type_specification]
#[verifier::external_body]
pub struct ExFuncArgs(hcl::eval::FuncArgs);

/// Declares hcl's parsed body, converted to and from [`Document`].
#[verifier::external_type_specification]
#[verifier::external_body]
pub struct ExBody(hcl::Body);

/// Declares hcl's evaluation context, built afresh inside the evaluation
/// wrapper for each expression.
#[verifier::external_type_specification]
#[verifier::external_body]
pub struct ExContext<'a>(hcl::eval::Context<'a>);

/// Converts the evaluator's arguments, runs the validated builtin behind
/// `id`, and converts the result back; an error is reported to the evaluator
/// as a failing function call.
#[verifier::external_body]
fn glue_call(id: BuiltinId, args: hcl::eval::FuncArgs) -> Result<hcl::Value, String> {
    let vals: Vec<Val> = args.iter().map(|v| hcl_to_value(v.clone())).collect();
    match invoke(id, &vals) {
        Ok(v) => Ok(value_to_hcl(&v)),
        Err(FnError::Unknown(m)) => Err(m),
        Err(FnError::Arg(m)) => Err(m),
        Err(FnError::Runtime(m)) => Err(m),
    }
}

/// Bridges `yamldecode` into the expression evaluator.
#[verifier::external_body]
fn glue_yamldecode(args: hcl::eval::FuncArgs) -> Result<hcl::Value, String> {
    glue_call(BuiltinId::YamlDecode, args)
}

/// Bridges `yamlencode` into the expression evaluator.
#[verifier::external_body]
fn glue_yamlencode(args: hcl::eval::FuncArgs) -> Result<hcl::Value, String> {
    glue_call(BuiltinId::YamlEncode, args)
}

/// Bridges `jsondecode` into the expression evaluator.
#[verifier::external_body]
fn glue_jsondecode(args: hcl::eval::FuncArgs) -> Result<hcl::Value, String> {
    glue_call(BuiltinId::JsonDecode, args)
}

/// Bridges `jsonencode` into the expression evaluator.
#[verifier::external_body]
fn glue_jsonencode(args: hcl::eval::FuncArgs) -> Result<hcl::Value, String> {
    glue_call(BuiltinId::JsonEncode, args)
}

/// Bridges `base64encode` into the expression evaluator.
#[verifier::external_body]
fn glue_base64encode(args: hcl::eval::FuncArgs) -> Result<hcl::Value, String> {
    glue_call(BuiltinId::Base64Encode, args)
}

/// Bridges `base64decode` into the expression evaluator.
#[verifier::external_body]
fn glue_base64decode(args: hcl::eval::FuncArgs) -> Result<hcl::Value, String> {
    glue_call(BuiltinId::Base64Decode, args)
}

/// Bridges `lower` into the expression evaluator.
#[verifier::external_body]
fn glue_lower(args: hcl::eval::FuncArgs) -> Result<hcl::Value, String> {
    glue_call(BuiltinId::Lower, args)
}

/// Bridges `upper` into the expression evaluator.
#[verifier::external_body]
fn glue_upper(args: hcl::eval::FuncArgs) -> Result<hcl::Value, String> {
    glue_call(BuiltinId::Upper, args)
}

/// Bridges `split` into the expression evaluator.
#[verifier::external_body]
fn glue_split(args: hcl::eval::FuncArgs) -> Result<hcl::Value, String> {
    glue_call(BuiltinId::Split, args)
}

/// Bridges `join` into the expression evaluator.
#[verifier::external_body]
fn glue_join(args: hcl::eval::FuncArgs) -> Result<hcl::Value, String> {
    glue_call(BuiltinId::Join, args)
}

/// Bridges `strlen` into the expression evaluator.
#[verifier::external_body]
fn glue_strlen(args: hcl::eval::FuncArgs) -> Result<hcl::Value, String> {
    glue_call(BuiltinId::Strlen, args)
}

/// Bridges `trimspace` into the expression evaluator.
#[verifier::external_body]
fn glue_trimspace(args: hcl::eval::FuncArgs) -> Result<hcl::Value, String> {
    glue_call(BuiltinId::Trimspace, args)
}

/// Bridges `strrev` into the expression evaluator.
#[verifier::external_body]
fn glue_strrev(args: hcl::eval::FuncArgs) -> Result<hcl::Value, String> {
    glue_call(BuiltinId::Strrev, args)
}

/// Bridges `md5` into the expression evaluator.
#[verifier::external_body]
fn glue_md5(args: hcl::eval::FuncArgs) -> Result<hcl::Value, String> {
    glue_call(BuiltinId::Md5, args)
}

/// Bridges `sha1` into the expression evaluator.
#[verifier::external_body]
fn glue_sha1(args: hcl::eval::FuncArgs) -> Result<hcl::Value, String> {
    glue_call(BuiltinId::Sha1, args)
}

/// Bridges `sha256` into the expression evaluator.
#[verifier::external_body]
fn glue_sha256(args: hcl::eval::FuncArgs) -> Result<hcl::Value, String> {
    glue_call(BuiltinId::Sha256, args)
}

/// Bridges `sha512` into the expression evaluator.
#[verifier::external_body]
fn glue_sha512(args: hcl::eval::FuncArgs) -> Result<hcl::Value, String> {
    glue_call(BuiltinId::Sha512, args)
}

/// Bridges `bcrypt` into the expression evaluator.
#[verifier::external_body]
fn glue_bcrypt(args: hcl::eval::FuncArgs) -> Result<hcl::Value, String> {
    glue_call(BuiltinId::Bcrypt, args)
}

/// Bridges `uuidv4` into the expression evaluator.
#[verifier::external_body]
fn glue_uuidv4(args: hcl::eval::FuncArgs) -> Result<hcl::Value, String> {
    glue_call(BuiltinId::UuidV4, args)
}

/// Bridges `uuidv5` into the expression evaluator.
#[verifier::external_body]
fn glue_uuidv5(args: hcl::eval::FuncArgs) -> Result<hcl::Value, String> {
    glue_call(BuiltinId::UuidV5, args)
}

/// Relies on `hcl::eval::Context::declare_func`: makes the encoding builtins
/// callable from expressions. Arguments are validated by the builtins
/// themselves, so each is declared variadic here.
#[verifier::external_body]
fn register_encoding(ctx: &mut hcl::eval::Context) {
    let any = hcl::eval::ParamType::Any;
    let b = || hcl::eval::FuncDef::builder().variadic_param(any.clone());
    ctx.declare_func("yamldecode", b().build(glue_yamldecode));
    ctx.declare_func("yamlencode", b().build(glue_yamlencode));
    ctx.declare_func("jsondecode", b().build(glue_jsondecode));
    ctx.declare_func("jsonencode", b().build(glue_jsonencode));
    ctx.declare_func("base64encode", b().build(glue_base64encode));
    ctx.declare_func("base64decode", b().build(glue_base64decode));
}

/// Relies on `hcl::eval::Context::declare_func`: makes the string builtins
/// callable from expressions.
#[verifier::external_body]
fn register_strings(ctx: &mut hcl::eval::Context) {
    let any = hcl::eval::ParamType::Any;
    let b = || hcl::eval::FuncDef::builder().variadic_param(any.clone());
    ctx.declare_func("lower", b().build(glue_lower));
    ctx.declare_func("upper", b().build(glue_upper));
    ctx.declare_func("split", b().build(glue_split));
    ctx.declare_func("join", b().build(glue_join));
    ctx.declare_func("strlen", b().build(glue_strlen));
    ctx.declare_func("trimspace", b().build(glue_trimspace));
    ctx.declare_func("strrev", b().build(glue_strrev));
}

/// Relies on `hcl::eval::Context::declare_func`: makes the hashing and uuid
/// builtins callable from expressions.
#[verifier::external_body]
fn register_hashing(ctx: &mut hcl::eval::Context) {
    let any = hcl::eval::ParamType::Any;
    let b = || hcl::eval::FuncDef::builder().variadic_param(any.clone());
    ctx.declare_func("md5", b().build(glue_md5));
    ctx.declare_func("sha1", b().build(glue_sha1));
    ctx.declare_func("sha256", b().build(glue_sha256));
    ctx.declare_func("sha512", b().build(glue_sha512));
    ctx.declare_func("bcrypt", b().build(glue_bcrypt));
    ctx.declare_func("uuidv4", b().build(glue_uuidv4));
    ctx.declare_func("uuidv5", b().build(glue_uuidv5));
}

/// Relies on hcl's expression evaluator: evaluates the expression against a
/// fresh hcl context holding the builtin functions and exactly the variables
/// of `ctx`, declared in order, a later declaration of a name shadowing an
/// earlier one. Function calls inside the expression may reach builtins whose
/// results are random, so nothing is promised of the outcome.
#[verifier::external_body]
pub fn eval_expression(expr: &hcl::expr::Expression, ctx: &EvalContext) -> (r: Result<
    Val,
    String,
>) {
    let mut hctx = hcl::eval::Context::new();
    register_encoding(&mut hctx);
    register_strings(&mut hctx);
    register_hashing(&mut hctx);
    for (k, v) in ctx.vars.iter() {
        hctx.declare_var(k.clone(), value_to_hcl(v));
    }
    match hcl::eval::Evaluate::evaluate(expr, &hctx) {
        Ok(v) => Ok(hcl_to_value(v)),
        Err(e) => Err(e.to_string()),
    }
}

/// Relies on `hcl::parse`: parses the text into a document, in order, each
/// scalar literal becoming a literal value and every other expression staying
/// unevaluated; an error means the parser rejected the text.
#[verifier::external_body]
pub fn parse_text(s: &str) -> (r: Result<Document, String>) {
    match hcl::parse(s) {
        Ok(body) => Ok(convert_body(body)),
        Err(e) => Err(e.to_string()),
    }
}

/// Converts a parsed hcl body into the document model, structure by
/// structure.
#[verifier::external_body]
fn convert_body(body: hcl::Body) -> Document {
    let mut out: Vec<Structure> = Vec::new();
    for s in body.0 {
        out.push(match s {
            hcl::Structure::Attribute(a) => Structure::Attribute(
                Attribute { key: a.key.into_inner(), expr: convert_expr(a.expr) },
            ),
            hcl::Structure::Block(b) => Structure::Block(Block {
                identifier: b.identifier.into_inner(),
                labels: b.labels.into_iter().map(|l| l.into_inner()).collect(),
                body: convert_body(b.body),
            }),
        });
    }
    Document(out)
}

/// Converts one parsed expression: a scalar literal becomes a value, anything
/// else stays for the evaluator.
#[verifier::external_body]
fn convert_expr(e: hcl::expr::Expression) -> Expr {
    match e {
        hcl::expr::Expression::Null => Expr::Lit(Val::Null),
        hcl::expr::Expression::Bool(b) => Expr::Lit(Val::Bool(b)),
        hcl::expr::Expression::Number(n) => Expr::Lit(Val::Num(n)),
        hcl::expr::Expression::String(s) => Expr::Lit(Val::Str(s)),
        other => Expr::Unevaluated(other),
    }
}

/// Relies on `hcl::to_string`: renders the document back to text.
#[verifier::external_body]
pub fn render_document(doc: &Document) -> (r: Result<String, String>) {
    match hcl::to_string(&convert_back(doc)) {
        Ok(t) => Ok(t),
        Err(e) => Err(e.to_string()),
    }
}

/// Converts the document model back into an hcl body, structure by structure.
#[verifier::external_body]
fn convert_back(doc: &Document) -> hcl::Body {
    let mut out: Vec<hcl::Structure> = Vec::new();
    for s in &doc.0 {
        out.push(match s {
            Structure::Attribute(a) => hcl::Structure::Attribute(hcl::Attribute {
                key: hcl::Identifier::unchecked(a.key.clone()),
                expr: expr_back(&a.expr),
            }),
            Structure::Block(b) => hcl::Structure::Block(hcl::Block {
                identifier: hcl::Identifier::unchecked(b.identifier.clone()),
                labels: b.labels.iter().map(|l| hcl::BlockLabel::String(l.clone())).collect(),
                body: convert_back(&b.body),
            }),
        });
    }
    hcl::Body(out)
}

/// Converts one expression of the document model back: a literal value as
/// itself, an unevaluated expression unchanged.
#[verifier::external_body]
fn expr_back(e: &Expr) -> hcl::expr::Expression {
    match e {
        Expr::Lit(v) => hcl::expr::Expression::from(value_to_hcl(v)),
        Expr::Unevaluated(raw) => raw.clone(),
    }
}

} // verus!
