//! The lines of the emitted text: what each one reads, and the code that
//! writes it.

use vstd::prelude::*;
use vstd::string::*;
use crate::text::{decimal, push_i64, push_usize, signed_decimal};

verus! {

/// `  %t = op i64 %a, %b`: the instruction `op` on two values.
pub open spec fn binary_line(target: nat, op: Seq<char>, a: nat, b: nat) -> Seq<char> {
    "  %"@ + decimal(target) + " = "@ + op + " i64 %"@ + decimal(a) + ", %"@ + decimal(b) + "\n"@
}

/// `  %t = add i64 n, 0`: the literal `n` as a value.
pub open spec fn const_line(target: nat, num: int) -> Seq<char> {
    "  %"@ + decimal(target) + " = add i64 "@ + signed_decimal(num) + ", 0\n"@
}

/// `  %t = load i64, i64* %s`: the content of slot `s`.
pub open spec fn load_line(target: nat, slot: nat) -> Seq<char> {
    "  %"@ + decimal(target) + " = load i64, i64* %"@ + decimal(slot) + "\n"@
}

/// `  store i64 %v, i64* %s`: value `v` into slot `s`.
pub open spec fn store_line(value: nat, slot: nat) -> Seq<char> {
    "  store i64 %"@ + decimal(value) + ", i64* %"@ + decimal(slot) + "\n"@
}

/// `  %t = icmp ne i64 %v, 0`: whether value `v` is non-zero.
pub open spec fn test_line(target: nat, value: nat) -> Seq<char> {
    "  %"@ + decimal(target) + " = icmp ne i64 %"@ + decimal(value) + ", 0\n"@
}

/// `  %t = zext i1 %v to i64`: the truth value `v` widened to 0 or 1.
pub open spec fn widen_line(target: nat, value: nat) -> Seq<char> {
    "  %"@ + decimal(target) + " = zext i1 %"@ + decimal(value) + " to i64\n"@
}

/// `  br i1 %c, label %yesL, label %noL`: the two-way branch on `c`.
pub open spec fn branch_line(cond: nat, yes: Seq<char>, no: Seq<char>, label: nat) -> Seq<char> {
    "  br i1 %"@ + decimal(cond) + ", label %"@ + yes + decimal(label) + ", label %"@ + no
        + decimal(label) + "\n"@
}

/// `  br label %nameL`: the jump to a block.
pub open spec fn jump_line(name: Seq<char>, label: nat) -> Seq<char> {
    "  br label %"@ + name + decimal(label) + "\n"@
}

/// `nameL:` and a line break: the start of a block.
pub open spec fn label_line(name: Seq<char>, label: nat) -> Seq<char> {
    name + decimal(label) + ":\n"@
}

/// `nameL:` with no line break behind it; the text that follows supplies
/// the white space.
pub open spec fn open_label(name: Seq<char>, label: nat) -> Seq<char> {
    name + decimal(label) + ":"@
}

/// `  ret i64 %v`: the return of value `v`.
pub open spec fn return_line(value: nat) -> Seq<char> {
    "  ret i64 %"@ + decimal(value) + "\n"@
}

/// `  %t = alloca ty`: a new slot of type `ty`.
pub open spec fn slot_line(target: nat, ty: Seq<char>) -> Seq<char> {
    "  %"@ + decimal(target) + " = alloca "@ + ty + "\n"@
}

/// `  store ty %argI, ty* %I`: argument `index` into its slot.
pub open spec fn store_argument_line(index: nat, ty: Seq<char>) -> Seq<char> {
    "  store "@ + ty + " %arg"@ + decimal(index) + ", "@ + ty + "* %"@ + decimal(index) + "\n"@
}

/// `  store ty 0, ty* %I`: zero into slot `index`.
pub open spec fn store_zero_line(index: nat, ty: Seq<char>) -> Seq<char> {
    "  store "@ + ty + " 0, "@ + ty + "* %"@ + decimal(index) + "\n"@
}

/// `  %t = alloca i64` and `  store i64 0, i64* %t`, the second without a
/// line break: the slot that stands for the value of a call without result.
pub open spec fn stand_in_lines(target: nat) -> Seq<char> {
    "  %"@ + decimal(target) + " = alloca i64\n"@ + "  store i64 0, i64* %"@ + decimal(target)
}

/// `i64 %v`, after `, ` unless it is the first: one argument of a call.
pub open spec fn argument_text(first: bool, value: nat) -> Seq<char> {
    (if first {
        ""@
    } else {
        ", "@
    }) + "i64 %"@ + decimal(value)
}

/// `ty %argI`, after `, ` unless it is the first: one parameter of a
/// definition.
pub open spec fn parameter_text(index: nat, ty: Seq<char>) -> Seq<char> {
    (if index == 0 {
        ""@
    } else {
        ", "@
    }) + ty + " %arg"@ + decimal(index)
}

/// Writes `binary_line`.
pub fn write_binary(target: usize, op: &str, a: usize, b: usize) -> (r: String)
    ensures
        r@ == binary_line(target as nat, op@, a as nat, b as nat),
{
    let mut s = String::from_str("  %");
    push_usize(&mut s, target);
    s.append(" = ");
    s.append(op);
    s.append(" i64 %");
    push_usize(&mut s, a);
    s.append(", %");
    push_usize(&mut s, b);
    s.append("\n");
    s
}

/// Writes `const_line`.
pub fn write_const(target: usize, num: i64) -> (r: String)
    ensures
        r@ == const_line(target as nat, num as int),
{
    let mut s = String::from_str("  %");
    push_usize(&mut s, target);
    s.append(" = add i64 ");
    push_i64(&mut s, num);
    s.append(", 0\n");
    s
}

/// Writes `load_line`.
pub fn write_load(target: usize, slot: usize) -> (r: String)
    ensures
        r@ == load_line(target as nat, slot as nat),
{
    let mut s = String::from_str("  %");
    push_usize(&mut s, target);
    s.append(" = load i64, i64* %");
    push_usize(&mut s, slot);
    s.append("\n");
    s
}

/// Writes `store_line`.
pub fn write_store(value: usize, slot: usize) -> (r: String)
    ensures
        r@ == store_line(value as nat, slot as nat),
{
    let mut s = String::from_str("  store i64 %");
    push_usize(&mut s, value);
    s.append(", i64* %");
    push_usize(&mut s, slot);
    s.append("\n");
    s
}

/// Writes `test_line`.
pub fn write_test(target: usize, value: usize) -> (r: String)
    ensures
        r@ == test_line(target as nat, value as nat),
{
    let mut s = String::from_str("  %");
    push_usize(&mut s, target);
    s.append(" = icmp ne i64 %");
    push_usize(&mut s, value);
    s.append(", 0\n");
    s
}

/// Writes `widen_line`.
pub fn write_widen(target: usize, value: usize) -> (r: String)
    ensures
        r@ == widen_line(target as nat, value as nat),
{
    let mut s = String::from_str("  %");
    push_usize(&mut s, target);
    s.append(" = zext i1 %");
    push_usize(&mut s, value);
    s.append(" to i64\n");
    s
}

/// Writes `branch_line`.
pub fn write_branch(cond: usize, yes: &str, no: &str, label: usize) -> (r: String)
    ensures
        r@ == branch_line(cond as nat, yes@, no@, label as nat),
{
    let mut s = String::from_str("  br i1 %");
    push_usize(&mut s, cond);
    s.append(", label %");
    s.append(yes);
    push_usize(&mut s, label);
    s.append(", label %");
    s.append(no);
    push_usize(&mut s, label);
    s.append("\n");
    s
}

/// Writes `jump_line`.
pub fn write_jump(name: &str, label: usize) -> (r: String)
    ensures
        r@ == jump_line(name@, label as nat),
{
    let mut s = String::from_str("  br label %");
    s.append(name);
    push_usize(&mut s, label);
    s.append("\n");
    s
}

/// Writes `label_line`.
pub fn write_label(name: &str, label: usize) -> (r: String)
    ensures
        r@ == label_line(name@, label as nat),
{
    let mut s = String::from_str(name);
    push_usize(&mut s, label);
    s.append(":\n");
    s
}

/// Writes `open_label`.
pub fn write_open_label(name: &str, label: usize) -> (r: String)
    ensures
        r@ == open_label(name@, label as nat),
{
    let mut s = String::from_str(name);
    push_usize(&mut s, label);
    s.append(":");
    s
}

/// Writes `return_line`.
pub fn write_return(value: usize) -> (r: String)
    ensures
        r@ == return_line(value as nat),
{
    let mut s = String::from_str("  ret i64 %");
    push_usize(&mut s, value);
    s.append("\n");
    s
}

/// Writes `slot_line`.
pub fn write_slot(target: usize, ty: &str) -> (r: String)
    ensures
        r@ == slot_line(target as nat, ty@),
{
    let mut s = String::from_str("  %");
    push_usize(&mut s, target);
    s.append(" = alloca ");
    s.append(ty);
    s.append("\n");
    s
}

/// Writes `store_argument_line`.
pub fn write_store_argument(index: usize, ty: &str) -> (r: String)
    ensures
        r@ == store_argument_line(index as nat, ty@),
{
    let mut s = String::from_str("  store ");
    s.append(ty);
    s.append(" %arg");
    push_usize(&mut s, index);
    s.append(", ");
    s.append(ty);
    s.append("* %");
    push_usize(&mut s, index);
    s.append("\n");
    s
}

/// Writes `store_zero_line`.
pub fn write_store_zero(index: usize, ty: &str) -> (r: String)
    ensures
        r@ == store_zero_line(index as nat, ty@),
{
    let mut s = String::from_str("  store ");
    s.append(ty);
    s.append(" 0, ");
    s.append(ty);
    s.append("* %");
    push_usize(&mut s, index);
    s.append("\n");
    s
}

/// Writes `stand_in_lines`.
pub fn write_stand_in(target: usize) -> (r: String)
    ensures
        r@ == stand_in_lines(target as nat),
{
    let mut s = String::from_str("  %");
    push_usize(&mut s, target);
    s.append(" = alloca i64\n");
    s.append("  store i64 0, i64* %");
    push_usize(&mut s, target);
    s
}

/// Writes `argument_text`.
pub fn write_argument(first: bool, value: usize) -> (r: String)
    ensures
        r@ == argument_text(first, value as nat),
{
    let mut s = String::from_str(if first { "" } else { ", " });
    s.append("i64 %");
    push_usize(&mut s, value);
    s
}

/// Writes `parameter_text`.
pub fn write_parameter(index: usize, ty: &str) -> (r: String)
    ensures
        r@ == parameter_text(index as nat, ty@),
{
    let mut s = String::from_str(if index == 0 { "" } else { ", " });
    s.append(ty);
    s.append(" %arg");
    push_usize(&mut s, index);
    s
}

} // verus!
