//! The texts of the faults that scanning and evaluation report.

use vstd::prelude::*;
use vstd::string::StringExecFns;

verus! {

/// `String::push`: the character is appended at the end.
pub assume_specification[ String::push ](text: &mut String, c: char)
    ensures
        final(text)@ == old(text)@.push(c),
;

/// `prefix` followed by `tail`.
pub fn join(prefix: &str, tail: &str) -> (r: String)
    ensures
        r@ == prefix@ + tail@,
{
    let mut r = String::from_str(prefix);
    r.append(tail);
    r
}

/// The characters of `text`, one by one.
pub fn chars_of(text: &str) -> (r: Vec<char>)
    ensures
        r@ == text@,
{
    let mut r: Vec<char> = Vec::new();
    for c in it: text.chars()
        invariant
            r@ == it.seq().take(it.index() as int),
            it.seq() == text@,
    {
        r.push(c);
    }
    r
}

/// The text made of `chars[from..to]`.
pub fn text_of(chars: &Vec<char>, from: usize, to: usize) -> (r: String)
    requires
        from <= to <= chars.len(),
    ensures
        r@ == chars@.subrange(from as int, to as int),
{
    let mut r = String::new();
    let mut i: usize = from;
    while i < to
        invariant
            from <= i <= to <= chars.len(),
            r@ == chars@.subrange(from as int, i as int),
        decreases to - i,
    {
        r.push(chars[i]);
        assert(chars@.subrange(from as int, i as int).push(chars@[i as int]) == chars@.subrange(
            from as int,
            i + 1,
        ));
        i += 1;
    }
    r
}

// Faults of scanning.

pub open spec fn name_missing() -> Seq<char> {
    "a name must stand before ':='"@
}

pub fn name_missing_text() -> (r: String)
    ensures
        r@ == name_missing(),
{
    String::from_str("a name must stand before ':='")
}

pub open spec fn naming_incomplete() -> Seq<char> {
    "':' must be followed by '='"@
}

pub fn naming_incomplete_text() -> (r: String)
    ensures
        r@ == naming_incomplete(),
{
    String::from_str("':' must be followed by '='")
}

pub open spec fn naming_empty() -> Seq<char> {
    "no formula follows ':='"@
}

pub fn naming_empty_text() -> (r: String)
    ensures
        r@ == naming_empty(),
{
    String::from_str("no formula follows ':='")
}

pub open spec fn naming_target() -> Seq<char> {
    "only a name can be given a formula"@
}

pub fn naming_target_text() -> (r: String)
    ensures
        r@ == naming_target(),
{
    String::from_str("only a name can be given a formula")
}

pub open spec fn operand_missing() -> Seq<char> {
    "an operator needs a left operand"@
}

pub fn operand_missing_text() -> (r: String)
    ensures
        r@ == operand_missing(),
{
    String::from_str("an operator needs a left operand")
}

pub open spec fn comparison_incomplete() -> Seq<char> {
    "nothing follows the comparison"@
}

pub fn comparison_incomplete_text() -> (r: String)
    ensures
        r@ == comparison_incomplete(),
{
    String::from_str("nothing follows the comparison")
}

pub open spec fn and_incomplete() -> Seq<char> {
    "'&' must be followed by '&'"@
}

pub fn and_incomplete_text() -> (r: String)
    ensures
        r@ == and_incomplete(),
{
    String::from_str("'&' must be followed by '&'")
}

pub open spec fn or_incomplete() -> Seq<char> {
    "'|' must be followed by '|'"@
}

pub fn or_incomplete_text() -> (r: String)
    ensures
        r@ == or_incomplete(),
{
    String::from_str("'|' must be followed by '|'")
}

pub open spec fn illegal_symbol(c: char) -> Seq<char> {
    "illegal symbol: "@.push(c)
}

pub fn illegal_symbol_text(c: char) -> (r: String)
    ensures
        r@ == illegal_symbol(c),
{
    let mut r = String::from_str("illegal symbol: ");
    r.push(c);
    r
}

pub open spec fn call_target() -> Seq<char> {
    "only a name can be called"@
}

pub fn call_target_text() -> (r: String)
    ensures
        r@ == call_target(),
{
    String::from_str("only a name can be called")
}

pub open spec fn definition_head() -> Seq<char> {
    "a function body must follow a name and its parameters"@
}

pub fn definition_head_text() -> (r: String)
    ensures
        r@ == definition_head(),
{
    String::from_str("a function body must follow a name and its parameters")
}

pub open spec fn not_a_number(text: Seq<char>) -> Seq<char> {
    "not a number: "@ + text
}

pub fn not_a_number_text(text: &str) -> (r: String)
    ensures
        r@ == not_a_number(text@),
{
    join("not a number: ", text)
}

} // verus!

verus! {

// Faults of evaluation.

pub open spec fn unresolved_name(name: Seq<char>) -> Seq<char> {
    "cannot resolve the name "@ + name
}

pub fn unresolved_name_text(name: &str) -> (r: String)
    ensures
        r@ == unresolved_name(name@),
{
    join("cannot resolve the name ", name)
}

pub open spec fn undefined_function(name: Seq<char>) -> Seq<char> {
    "no function is defined under the name "@ + name
}

pub fn undefined_function_text(name: &str) -> (r: String)
    ensures
        r@ == undefined_function(name@),
{
    join("no function is defined under the name ", name)
}

pub open spec fn unregistered_native(name: Seq<char>) -> Seq<char> {
    "no native function is registered under the name "@ + name
}

pub fn unregistered_native_text(name: &str) -> (r: String)
    ensures
        r@ == unregistered_native(name@),
{
    join("no native function is registered under the name ", name)
}

pub open spec fn not_callable(name: Seq<char>) -> Seq<char> {
    "not a function: "@ + name
}

pub fn not_callable_text(name: &str) -> (r: String)
    ensures
        r@ == not_callable(name@),
{
    join("not a function: ", name)
}

pub open spec fn arity_mismatch(function: Seq<char>) -> Seq<char> {
    "wrong number of arguments for function "@ + function
}

pub fn arity_mismatch_text(function: &str) -> (r: String)
    ensures
        r@ == arity_mismatch(function@),
{
    join("wrong number of arguments for function ", function)
}

pub open spec fn bad_parameter(function: Seq<char>) -> Seq<char> {
    "a parameter is no name in function "@ + function
}

pub fn bad_parameter_text(function: &str) -> (r: String)
    ensures
        r@ == bad_parameter(function@),
{
    join("a parameter is no name in function ", function)
}

pub open spec fn function_argument(function: Seq<char>) -> Seq<char> {
    "a function is passed by its name only, to function "@ + function
}

pub fn function_argument_text(function: &str) -> (r: String)
    ensures
        r@ == function_argument(function@),
{
    join("a function is passed by its name only, to function ", function)
}

pub open spec fn argument_failed(function: Seq<char>, reason: Seq<char>) -> Seq<char> {
    "an argument failed for function "@ + function + ": "@ + reason
}

pub fn argument_failed_text(function: &str, reason: &str) -> (r: String)
    ensures
        r@ == argument_failed(function@, reason@),
{
    let mut r = join("an argument failed for function ", function);
    r.append(": ");
    r.append(reason);
    r
}

pub open spec fn argument_empty(function: Seq<char>) -> Seq<char> {
    "an argument has no value for function "@ + function
}

pub fn argument_empty_text(function: &str) -> (r: String)
    ensures
        r@ == argument_empty(function@),
{
    join("an argument has no value for function ", function)
}

pub open spec fn malformed_body() -> Seq<char> {
    "a named expression of a function body gave neither a number nor a truth value"@
}

pub fn malformed_body_text() -> (r: String)
    ensures
        r@ == malformed_body(),
{
    String::from_str("a named expression of a function body gave neither a number nor a truth value")
}

pub open spec fn type_mismatch(operator: Seq<char>) -> Seq<char> {
    "wrong kind of operand for "@ + operator
}

pub fn type_mismatch_text(operator: &str) -> (r: String)
    ensures
        r@ == type_mismatch(operator@),
{
    join("wrong kind of operand for ", operator)
}

pub open spec fn not_evaluable() -> Seq<char> {
    "this expression cannot be evaluated"@
}

pub fn not_evaluable_text() -> (r: String)
    ensures
        r@ == not_evaluable(),
{
    String::from_str("this expression cannot be evaluated")
}

pub open spec fn depth_exceeded() -> Seq<char> {
    "recursion limit exceeded"@
}

pub fn depth_exceeded_text() -> (r: String)
    ensures
        r@ == depth_exceeded(),
{
    String::from_str("recursion limit exceeded")
}

} // verus!
