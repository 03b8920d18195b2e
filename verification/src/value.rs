//! The closed value union: one arm per supported payload kind, immutable
//! once constructed, with one canonical text form and one canonical JSON
//! form per arm.

use vstd::prelude::*;

use crate::json::{json_quote, json_str_lit};
use crate::text::{
    dec_i128, dec_int, dec_nat, dec_u128, duration_text, hex_nat, hex_u16, quote_text, quoted,
    render_duration,
};

verus! {

/// An internet address, v4 as its four octets, v6 as its eight groups.
#[derive(Clone, Copy, PartialEq, Eq, Structural)]
pub enum IpAddress {
    V4 { a: u8, b: u8, c: u8, d: u8 },
    V6 { g0: u16, g1: u16, g2: u16, g3: u16, g4: u16, g5: u16, g6: u16, g7: u16 },
}

/// A socket address: an internet address and a port.
#[derive(Clone, Copy, PartialEq, Eq, Structural)]
pub struct SockAddress {
    pub ip: IpAddress,
    pub port: u16,
}

/// A span of time as whole seconds and a nanosecond remainder. A wall-clock
/// time point is carried as the span since the epoch.
#[derive(Clone, Copy, PartialEq, Eq, Structural)]
pub struct DurationVal {
    pub secs: u64,
    pub nanos: u32,
}

/// The mathematical content of a value: integer arms collapse to one
/// unbounded integer, string-like arms to one character sequence.
pub enum ValueModel {
    Bool(bool),
    Int(int),
    Text(Seq<char>),
    Ip(IpAddress),
    Socket(SockAddress),
    Dur(DurationVal),
    SysTime(DurationVal),
    IoError { display: Seq<char>, debug: Seq<char> },
    Debuggable { tag: Seq<char>, text: Seq<char> },
}

/// The closed, type-erasing value representation. Exactly one arm is active;
/// a value is never mutated after construction.
pub enum BasicType {
    Bool(bool),
    I8(i8),
    I16(i16),
    I32(i32),
    I64(i64),
    I128(i128),
    U8(u8),
    U16(u16),
    U32(u32),
    U64(u64),
    U128(u128),
    StaticStr(&'static str),
    Str(String),
    Ip(IpAddress),
    Socket(SockAddress),
    Dur(DurationVal),
    SysTime(DurationVal),
    IoError { display: String, debug: String },
    Debuggable { tag: String, text: String },
}

impl View for BasicType {
    type V = ValueModel;

    open spec fn view(&self) -> ValueModel {
        match self {
            BasicType::Bool(v) => ValueModel::Bool(*v),
            BasicType::I8(v) => ValueModel::Int(*v as int),
            BasicType::I16(v) => ValueModel::Int(*v as int),
            BasicType::I32(v) => ValueModel::Int(*v as int),
            BasicType::I64(v) => ValueModel::Int(*v as int),
            BasicType::I128(v) => ValueModel::Int(*v as int),
            BasicType::U8(v) => ValueModel::Int(*v as int),
            BasicType::U16(v) => ValueModel::Int(*v as int),
            BasicType::U32(v) => ValueModel::Int(*v as int),
            BasicType::U64(v) => ValueModel::Int(*v as int),
            BasicType::U128(v) => ValueModel::Int(*v as int),
            BasicType::StaticStr(v) => ValueModel::Text(v@),
            BasicType::Str(v) => ValueModel::Text(v@),
            BasicType::Ip(v) => ValueModel::Ip(*v),
            BasicType::Socket(v) => ValueModel::Socket(*v),
            BasicType::Dur(v) => ValueModel::Dur(*v),
            BasicType::SysTime(v) => ValueModel::SysTime(*v),
            BasicType::IoError { display, debug } => ValueModel::IoError {
                display: display@,
                debug: debug@,
            },
            BasicType::Debuggable { tag, text } => ValueModel::Debuggable {
                tag: tag@,
                text: text@,
            },
        }
    }
}

impl Clone for BasicType {
    /// An independent copy holding the same payload.
    fn clone(&self) -> (r: BasicType)
        ensures
            r == *self,
    {
        match self {
            BasicType::Bool(v) => BasicType::Bool(*v),
            BasicType::I8(v) => BasicType::I8(*v),
            BasicType::I16(v) => BasicType::I16(*v),
            BasicType::I32(v) => BasicType::I32(*v),
            BasicType::I64(v) => BasicType::I64(*v),
            BasicType::I128(v) => BasicType::I128(*v),
            BasicType::U8(v) => BasicType::U8(*v),
            BasicType::U16(v) => BasicType::U16(*v),
            BasicType::U32(v) => BasicType::U32(*v),
            BasicType::U64(v) => BasicType::U64(*v),
            BasicType::U128(v) => BasicType::U128(*v),
            BasicType::StaticStr(v) => BasicType::StaticStr(v),
            BasicType::Str(v) => BasicType::Str(v.clone()),
            BasicType::Ip(v) => BasicType::Ip(*v),
            BasicType::Socket(v) => BasicType::Socket(*v),
            BasicType::Dur(v) => BasicType::Dur(*v),
            BasicType::SysTime(v) => BasicType::SysTime(*v),
            BasicType::IoError { display, debug } => BasicType::IoError {
                display: display.clone(),
                debug: debug.clone(),
            },
            BasicType::Debuggable { tag, text } => BasicType::Debuggable {
                tag: tag.clone(),
                text: text.clone(),
            },
        }
    }
}

impl From<bool> for BasicType {
    fn from(v: bool) -> (r: BasicType) {
        BasicType::Bool(v)
    }
}

impl vstd::std_specs::convert::FromSpecImpl<bool> for BasicType {
    open spec fn obeys_from_spec() -> bool {
        true
    }

    open spec fn from_spec(v: bool) -> BasicType {
        BasicType::Bool(v)
    }
}

impl From<i8> for BasicType {
    fn from(v: i8) -> (r: BasicType) {
        BasicType::I8(v)
    }
}

impl vstd::std_specs::convert::FromSpecImpl<i8> for BasicType {
    open spec fn obeys_from_spec() -> bool {
        true
    }

    open spec fn from_spec(v: i8) -> BasicType {
        BasicType::I8(v)
    }
}

impl From<i16> for BasicType {
    fn from(v: i16) -> (r: BasicType) {
        BasicType::I16(v)
    }
}

impl vstd::std_specs::convert::FromSpecImpl<i16> for BasicType {
    open spec fn obeys_from_spec() -> bool {
        true
    }

    open spec fn from_spec(v: i16) -> BasicType {
        BasicType::I16(v)
    }
}

impl From<i32> for BasicType {
    fn from(v: i32) -> (r: BasicType) {
        BasicType::I32(v)
    }
}

impl vstd::std_specs::convert::FromSpecImpl<i32> for BasicType {
    open spec fn obeys_from_spec() -> bool {
        true
    }

    open spec fn from_spec(v: i32) -> BasicType {
        BasicType::I32(v)
    }
}

impl From<i64> for BasicType {
    fn from(v: i64) -> (r: BasicType) {
        BasicType::I64(v)
    }
}

impl vstd::std_specs::convert::FromSpecImpl<i64> for BasicType {
    open spec fn obeys_from_spec() -> bool {
        true
    }

    open spec fn from_spec(v: i64) -> BasicType {
        BasicType::I64(v)
    }
}

impl From<i128> for BasicType {
    fn from(v: i128) -> (r: BasicType) {
        BasicType::I128(v)
    }
}

impl vstd::std_specs::convert::FromSpecImpl<i128> for BasicType {
    open spec fn obeys_from_spec() -> bool {
        true
    }

    open spec fn from_spec(v: i128) -> BasicType {
        BasicType::I128(v)
    }
}

impl From<u8> for BasicType {
    fn from(v: u8) -> (r: BasicType) {
        BasicType::U8(v)
    }
}

impl vstd::std_specs::convert::FromSpecImpl<u8> for BasicType {
    open spec fn obeys_from_spec() -> bool {
        true
    }

    open spec fn from_spec(v: u8) -> BasicType {
        BasicType::U8(v)
    }
}

impl From<u16> for BasicType {
    fn from(v: u16) -> (r: BasicType) {
        BasicType::U16(v)
    }
}

impl vstd::std_specs::convert::FromSpecImpl<u16> for BasicType {
    open spec fn obeys_from_spec() -> bool {
        true
    }

    open spec fn from_spec(v: u16) -> BasicType {
        BasicType::U16(v)
    }
}

impl From<u32> for BasicType {
    fn from(v: u32) -> (r: BasicType) {
        BasicType::U32(v)
    }
}

impl vstd::std_specs::convert::FromSpecImpl<u32> for BasicType {
    open spec fn obeys_from_spec() -> bool {
        true
    }

    open spec fn from_spec(v: u32) -> BasicType {
        BasicType::U32(v)
    }
}

impl From<u64> for BasicType {
    fn from(v: u64) -> (r: BasicType) {
        BasicType::U64(v)
    }
}

impl vstd::std_specs::convert::FromSpecImpl<u64> for BasicType {
    open spec fn obeys_from_spec() -> bool {
        true
    }

    open spec fn from_spec(v: u64) -> BasicType {
        BasicType::U64(v)
    }
}

impl From<u128> for BasicType {
    fn from(v: u128) -> (r: BasicType) {
        BasicType::U128(v)
    }
}

impl vstd::std_specs::convert::FromSpecImpl<u128> for BasicType {
    open spec fn obeys_from_spec() -> bool {
        true
    }

    open spec fn from_spec(v: u128) -> BasicType {
        BasicType::U128(v)
    }
}

impl From<&'static str> for BasicType {
    fn from(v: &'static str) -> (r: BasicType) {
        BasicType::StaticStr(v)
    }
}

impl vstd::std_specs::convert::FromSpecImpl<&'static str> for BasicType {
    open spec fn obeys_from_spec() -> bool {
        true
    }

    open spec fn from_spec(v: &'static str) -> BasicType {
        BasicType::StaticStr(v)
    }
}

impl From<String> for BasicType {
    fn from(v: String) -> (r: BasicType) {
        BasicType::Str(v)
    }
}

impl vstd::std_specs::convert::FromSpecImpl<String> for BasicType {
    open spec fn obeys_from_spec() -> bool {
        true
    }

    open spec fn from_spec(v: String) -> BasicType {
        BasicType::Str(v)
    }
}

impl From<IpAddress> for BasicType {
    fn from(v: IpAddress) -> (r: BasicType) {
        BasicType::Ip(v)
    }
}

impl vstd::std_specs::convert::FromSpecImpl<IpAddress> for BasicType {
    open spec fn obeys_from_spec() -> bool {
        true
    }

    open spec fn from_spec(v: IpAddress) -> BasicType {
        BasicType::Ip(v)
    }
}

impl From<SockAddress> for BasicType {
    fn from(v: SockAddress) -> (r: BasicType) {
        BasicType::Socket(v)
    }
}

impl vstd::std_specs::convert::FromSpecImpl<SockAddress> for BasicType {
    open spec fn obeys_from_spec() -> bool {
        true
    }

    open spec fn from_spec(v: SockAddress) -> BasicType {
        BasicType::Socket(v)
    }
}

impl From<DurationVal> for BasicType {
    fn from(v: DurationVal) -> (r: BasicType) {
        BasicType::Dur(v)
    }
}

impl vstd::std_specs::convert::FromSpecImpl<DurationVal> for BasicType {
    open spec fn obeys_from_spec() -> bool {
        true
    }

    open spec fn from_spec(v: DurationVal) -> BasicType {
        BasicType::Dur(v)
    }
}

impl<'a> From<&'a bool> for BasicType {
    fn from(v: &'a bool) -> (r: BasicType) {
        BasicType::Bool(*v)
    }
}

impl<'a> vstd::std_specs::convert::FromSpecImpl<&'a bool> for BasicType {
    open spec fn obeys_from_spec() -> bool {
        true
    }

    open spec fn from_spec(v: &'a bool) -> BasicType {
        BasicType::Bool(*v)
    }
}

impl<'a> From<&'a i8> for BasicType {
    fn from(v: &'a i8) -> (r: BasicType) {
        BasicType::I8(*v)
    }
}

impl<'a> vstd::std_specs::convert::FromSpecImpl<&'a i8> for BasicType {
    open spec fn obeys_from_spec() -> bool {
        true
    }

    open spec fn from_spec(v: &'a i8) -> BasicType {
        BasicType::I8(*v)
    }
}

impl<'a> From<&'a i16> for BasicType {
    fn from(v: &'a i16) -> (r: BasicType) {
        BasicType::I16(*v)
    }
}

impl<'a> vstd::std_specs::convert::FromSpecImpl<&'a i16> for BasicType {
    open spec fn obeys_from_spec() -> bool {
        true
    }

    open spec fn from_spec(v: &'a i16) -> BasicType {
        BasicType::I16(*v)
    }
}

impl<'a> From<&'a i32> for BasicType {
    fn from(v: &'a i32) -> (r: BasicType) {
        BasicType::I32(*v)
    }
}

impl<'a> vstd::std_specs::convert::FromSpecImpl<&'a i32> for BasicType {
    open spec fn obeys_from_spec() -> bool {
        true
    }

    open spec fn from_spec(v: &'a i32) -> BasicType {
        BasicType::I32(*v)
    }
}

impl<'a> From<&'a i64> for BasicType {
    fn from(v: &'a i64) -> (r: BasicType) {
        BasicType::I64(*v)
    }
}

impl<'a> vstd::std_specs::convert::FromSpecImpl<&'a i64> for BasicType {
    open spec fn obeys_from_spec() -> bool {
        true
    }

    open spec fn from_spec(v: &'a i64) -> BasicType {
        BasicType::I64(*v)
    }
}

impl<'a> From<&'a i128> for BasicType {
    fn from(v: &'a i128) -> (r: BasicType) {
        BasicType::I128(*v)
    }
}

impl<'a> vstd::std_specs::convert::FromSpecImpl<&'a i128> for BasicType {
    open spec fn obeys_from_spec() -> bool {
        true
    }

    open spec fn from_spec(v: &'a i128) -> BasicType {
        BasicType::I128(*v)
    }
}

impl<'a> From<&'a u8> for BasicType {
    fn from(v: &'a u8) -> (r: BasicType) {
        BasicType::U8(*v)
    }
}

impl<'a> vstd::std_specs::convert::FromSpecImpl<&'a u8> for BasicType {
    open spec fn obeys_from_spec() -> bool {
        true
    }

    open spec fn from_spec(v: &'a u8) -> BasicType {
        BasicType::U8(*v)
    }
}

impl<'a> From<&'a u16> for BasicType {
    fn from(v: &'a u16) -> (r: BasicType) {
        BasicType::U16(*v)
    }
}

impl<'a> vstd::std_specs::convert::FromSpecImpl<&'a u16> for BasicType {
    open spec fn obeys_from_spec() -> bool {
        true
    }

    open spec fn from_spec(v: &'a u16) -> BasicType {
        BasicType::U16(*v)
    }
}

impl<'a> From<&'a u32> for BasicType {
    fn from(v: &'a u32) -> (r: BasicType) {
        BasicType::U32(*v)
    }
}

impl<'a> vstd::std_specs::convert::FromSpecImpl<&'a u32> for BasicType {
    open spec fn obeys_from_spec() -> bool {
        true
    }

    open spec fn from_spec(v: &'a u32) -> BasicType {
        BasicType::U32(*v)
    }
}

impl<'a> From<&'a u64> for BasicType {
    fn from(v: &'a u64) -> (r: BasicType) {
        BasicType::U64(*v)
    }
}

impl<'a> vstd::std_specs::convert::FromSpecImpl<&'a u64> for BasicType {
    open spec fn obeys_from_spec() -> bool {
        true
    }

    open spec fn from_spec(v: &'a u64) -> BasicType {
        BasicType::U64(*v)
    }
}

impl<'a> From<&'a u128> for BasicType {
    fn from(v: &'a u128) -> (r: BasicType) {
        BasicType::U128(*v)
    }
}

impl<'a> vstd::std_specs::convert::FromSpecImpl<&'a u128> for BasicType {
    open spec fn obeys_from_spec() -> bool {
        true
    }

    open spec fn from_spec(v: &'a u128) -> BasicType {
        BasicType::U128(*v)
    }
}

impl<'a> From<&'a IpAddress> for BasicType {
    fn from(v: &'a IpAddress) -> (r: BasicType) {
        BasicType::Ip(*v)
    }
}

impl<'a> vstd::std_specs::convert::FromSpecImpl<&'a IpAddress> for BasicType {
    open spec fn obeys_from_spec() -> bool {
        true
    }

    open spec fn from_spec(v: &'a IpAddress) -> BasicType {
        BasicType::Ip(*v)
    }
}

impl<'a> From<&'a SockAddress> for BasicType {
    fn from(v: &'a SockAddress) -> (r: BasicType) {
        BasicType::Socket(*v)
    }
}

impl<'a> vstd::std_specs::convert::FromSpecImpl<&'a SockAddress> for BasicType {
    open spec fn obeys_from_spec() -> bool {
        true
    }

    open spec fn from_spec(v: &'a SockAddress) -> BasicType {
        BasicType::Socket(*v)
    }
}

impl<'a> From<&'a DurationVal> for BasicType {
    fn from(v: &'a DurationVal) -> (r: BasicType) {
        BasicType::Dur(*v)
    }
}

impl<'a> vstd::std_specs::convert::FromSpecImpl<&'a DurationVal> for BasicType {
    open spec fn obeys_from_spec() -> bool {
        true
    }

    open spec fn from_spec(v: &'a DurationVal) -> BasicType {
        BasicType::Dur(*v)
    }
}

impl<'a> From<&'a String> for BasicType {
    fn from(v: &'a String) -> (r: BasicType)
        ensures
            r@ == ValueModel::Text(v@),
    {
        BasicType::Str(String::from_str(v.as_str()))
    }
}

impl<'a> vstd::std_specs::convert::FromSpecImpl<&'a String> for BasicType {
    open spec fn obeys_from_spec() -> bool {
        false
    }

    open spec fn from_spec(v: &'a String) -> BasicType {
        arbitrary()
    }
}

/// The number of consecutive zero groups starting at position `i`.
pub open spec fn zero_run_len(g: Seq<u16>, i: int) -> nat
    decreases g.len() - i,
{
    if i < 0 || i >= g.len() || g[i] != 0 {
        0
    } else {
        1 + zero_run_len(g, i + 1)
    }
}

/// The longest run of zero groups at or after position `i`: its start and
/// its length, the leftmost among equals. With no zero group the length is
/// zero.
pub open spec fn best_run(g: Seq<u16>, i: int) -> (int, nat)
    decreases g.len() - i,
{
    if i >= g.len() {
        (g.len() as int, 0)
    } else {
        let rest = best_run(g, i + 1);
        let cur = zero_run_len(g, i);
        if cur >= rest.1 {
            (i, cur)
        } else {
            rest
        }
    }
}

/// A zero run starting at `i` ends by the end of the groups.
pub proof fn lemma_zero_run_le(g: Seq<u16>, i: int)
    requires
        0 <= i <= g.len(),
    ensures
        zero_run_len(g, i) <= g.len() - i,
    decreases g.len() - i,
{
    if i < g.len() && g[i] == 0 {
        lemma_zero_run_le(g, i + 1);
    }
}

/// The longest zero run starts at or after `i` and ends by the end of the
/// groups.
pub proof fn lemma_best_run_bounds(g: Seq<u16>, i: int)
    requires
        0 <= i <= g.len(),
    ensures
        i <= best_run(g, i).0 <= g.len(),
        best_run(g, i).0 + best_run(g, i).1 <= g.len(),
    decreases g.len() - i,
{
    if i < g.len() {
        lemma_best_run_bounds(g, i + 1);
        lemma_zero_run_le(g, i);
    }
}

/// Lowercase hexadecimal groups joined by colons.
pub open spec fn hex_groups(g: Seq<u16>) -> Seq<char>
    decreases g.len(),
{
    if g.len() == 0 {
        Seq::empty()
    } else if g.len() == 1 {
        hex_nat(g[0] as nat)
    } else {
        hex_groups(g.drop_last()) + seq![':'] + hex_nat(g.last() as nat)
    }
}

/// Whether eight groups form an IPv4-mapped address: five leading zero
/// groups, then `ffff`.
pub open spec fn ipv6_mapped(g: Seq<u16>) -> bool {
    g.len() == 8 && g[0] == 0 && g[1] == 0 && g[2] == 0 && g[3] == 0 && g[4] == 0 && g[5]
        == 0xffff
}

/// The mixed notation of an IPv4-mapped address: `::ffff:` and the dotted
/// decimal quad held in the last two groups.
pub open spec fn ipv6_mapped_text(g6: u16, g7: u16) -> Seq<char> {
    seq![':', ':', 'f', 'f', 'f', 'f', ':'] + dec_nat((g6 / 256) as nat) + seq!['.'] + dec_nat(
        (g6 % 256) as nat,
    ) + seq!['.'] + dec_nat((g7 / 256) as nat) + seq!['.'] + dec_nat((g7 % 256) as nat)
}

/// The canonical text of eight IPv6 groups: mixed notation for an
/// IPv4-mapped address; otherwise lowercase hexadecimal groups joined by
/// colons, with the longest run of at least two zero groups — the leftmost
/// among equals — compressed to a double colon.
pub open spec fn ipv6_text(g: Seq<u16>) -> Seq<char> {
    if ipv6_mapped(g) {
        ipv6_mapped_text(g[6], g[7])
    } else {
        let b = best_run(g, 0);
        if b.1 == g.len() {
            seq![':', ':']
        } else if b.1 >= 2 {
            hex_groups(g.take(b.0)) + seq![':', ':'] + hex_groups(g.skip(b.0 + b.1))
        } else {
            hex_groups(g)
        }
    }
}

/// The eight groups of a v6 address as a sequence.
pub open spec fn v6_groups(ip: IpAddress) -> Seq<u16>
    recommends
        ip is V6,
{
    seq![
        ip->V6_g0,
        ip->V6_g1,
        ip->V6_g2,
        ip->V6_g3,
        ip->V6_g4,
        ip->V6_g5,
        ip->V6_g6,
        ip->V6_g7,
    ]
}

/// The canonical text of an internet address: dotted decimal octets for v4,
/// the compressed lowercase hexadecimal groups for v6.
pub open spec fn ip_text(ip: IpAddress) -> Seq<char> {
    match ip {
        IpAddress::V4 { a, b, c, d } => dec_nat(a as nat) + seq!['.'] + dec_nat(b as nat)
            + seq!['.'] + dec_nat(c as nat) + seq!['.'] + dec_nat(d as nat),
        IpAddress::V6 { .. } => ipv6_text(v6_groups(ip)),
    }
}

/// The canonical text of a socket address: `ip:port` for v4,
/// `[ip]:port` for v6.
pub open spec fn socket_text(sa: SockAddress) -> Seq<char> {
    match sa.ip {
        IpAddress::V4 { .. } => ip_text(sa.ip) + seq![':'] + dec_nat(sa.port as nat),
        IpAddress::V6 { .. } => seq!['['] + ip_text(sa.ip) + seq![']', ':'] + dec_nat(
            sa.port as nat,
        ),
    }
}

/// The text of the type-erased escape hatch: the type name, then the debug
/// text in single quotes.
pub open spec fn debuggable_text(tag: Seq<char>, text: Seq<char>) -> Seq<char> {
    tag + seq!['=', '\''] + text + seq!['\'']
}

/// The canonical text form of a value: `true`/`false`, decimal for the
/// integers, the quoted escaped form for strings, and the address, duration
/// and error forms of the other arms.
pub open spec fn value_text(v: ValueModel) -> Seq<char> {
    match v {
        ValueModel::Bool(b) => if b {
            seq!['t', 'r', 'u', 'e']
        } else {
            seq!['f', 'a', 'l', 's', 'e']
        },
        ValueModel::Int(i) => dec_int(i),
        ValueModel::Text(s) => quoted(s),
        ValueModel::Ip(ip) => ip_text(ip),
        ValueModel::Socket(sa) => socket_text(sa),
        ValueModel::Dur(d) => duration_text(d.secs as nat, d.nanos as nat),
        ValueModel::SysTime(d) => duration_text(d.secs as nat, d.nanos as nat),
        ValueModel::IoError { display, debug } => debug,
        ValueModel::Debuggable { tag, text } => debuggable_text(tag, text),
    }
}

/// The canonical JSON form of a value: native JSON booleans and numbers; a
/// JSON string, quoted by the external serializer, for every other arm.
pub open spec fn value_json(v: ValueModel) -> Seq<char> {
    match v {
        ValueModel::Bool(b) => if b {
            seq!['t', 'r', 'u', 'e']
        } else {
            seq!['f', 'a', 'l', 's', 'e']
        },
        ValueModel::Int(i) => dec_int(i),
        ValueModel::Text(s) => json_str_lit(s),
        ValueModel::Ip(ip) => json_str_lit(ip_text(ip)),
        ValueModel::Socket(sa) => json_str_lit(socket_text(sa)),
        ValueModel::Dur(d) => json_str_lit(duration_text(d.secs as nat, d.nanos as nat)),
        ValueModel::SysTime(d) => json_str_lit(duration_text(d.secs as nat, d.nanos as nat)),
        ValueModel::IoError { display, debug } => json_str_lit(display),
        ValueModel::Debuggable { tag, text } => json_str_lit(
            debuggable_text(tag, text),
        ),
    }
}

fn bool_str(b: bool) -> (r: &'static str)
    ensures
        r@ == value_text(ValueModel::Bool(b)),
{
    if b {
        proof {
            reveal_strlit("true");
            assert("true"@ =~= seq!['t', 'r', 'u', 'e']);
        }
        "true"
    } else {
        proof {
            reveal_strlit("false");
            assert("false"@ =~= seq!['f', 'a', 'l', 's', 'e']);
        }
        "false"
    }
}

fn hex_groups_range(v: &Vec<u16>, from: usize, to: usize) -> (r: String)
    requires
        from <= to <= v@.len(),
    ensures
        r@ == hex_groups(v@.subrange(from as int, to as int)),
{
    let mut r = String::new();
    proof {
        assert(v@.subrange(from as int, from as int) =~= Seq::<u16>::empty());
        assert(r@ =~= hex_groups(v@.subrange(from as int, from as int)));
    }
    let mut i: usize = from;
    while i < to
        invariant
            from <= i <= to <= v@.len(),
            r@ == hex_groups(v@.subrange(from as int, i as int)),
        decreases to - i,
    {
        if i > from {
            r.append(":");
            proof {
                reveal_strlit(":");
                assert(":"@ =~= seq![':']);
            }
        }
        let h = hex_u16(v[i]);
        r.append(h.as_str());
        proof {
            let pre = v@.subrange(from as int, i as int);
            let post = v@.subrange(from as int, (i + 1) as int);
            assert(post.drop_last() =~= pre);
            assert(post.last() == v@[i as int]);
        }
        i = i + 1;
    }
    r
}

fn render_ip(ip: &IpAddress) -> (r: String)
    ensures
        r@ == ip_text(*ip),
{
    match ip {
        IpAddress::V4 { a, b, c, d } => {
            let mut s = dec_u128(*a as u128);
            s.append(".");
            let sb = dec_u128(*b as u128);
            s.append(sb.as_str());
            s.append(".");
            let sc = dec_u128(*c as u128);
            s.append(sc.as_str());
            s.append(".");
            let sd = dec_u128(*d as u128);
            s.append(sd.as_str());
            proof {
                reveal_strlit(".");
                assert("."@ =~= seq!['.']);
            }
            s
        },
        IpAddress::V6 { g0, g1, g2, g3, g4, g5, g6, g7 } => {
            if *g0 == 0 && *g1 == 0 && *g2 == 0 && *g3 == 0 && *g4 == 0 && *g5 == 0xffff {
                let mut s = String::from_str("::ffff:");
                proof {
                    reveal_strlit("::ffff:");
                    assert("::ffff:"@ =~= seq![':', ':', 'f', 'f', 'f', 'f', ':']);
                }
                let mut p = dec_u128((*g6 / 256) as u128);
                s.append(p.as_str());
                s.append(".");
                p = dec_u128((*g6 % 256) as u128);
                s.append(p.as_str());
                s.append(".");
                p = dec_u128((*g7 / 256) as u128);
                s.append(p.as_str());
                s.append(".");
                p = dec_u128((*g7 % 256) as u128);
                s.append(p.as_str());
                proof {
                    reveal_strlit(".");
                    assert("."@ =~= seq!['.']);
                    assert(ipv6_mapped(v6_groups(*ip)));
                    assert(v6_groups(*ip)[6] == *g6 && v6_groups(*ip)[7] == *g7);
                    assert(s@ =~= ip_text(*ip));
                }
                return s;
            }
            let mut v: Vec<u16> = Vec::new();
            v.push(*g0);
            v.push(*g1);
            v.push(*g2);
            v.push(*g3);
            v.push(*g4);
            v.push(*g5);
            v.push(*g6);
            v.push(*g7);
            proof {
                assert(v@ =~= v6_groups(*ip));
            }
            let ghost g = v@;
            proof {
                assert(g[0] == *g0 && g[1] == *g1 && g[2] == *g2 && g[3] == *g3 && g[4] == *g4
                    && g[5] == *g5);
                assert(!ipv6_mapped(g));
            }
            // Scan right to left for the longest zero run; a tie keeps the
            // leftmost.
            let mut i: usize = 8;
            let mut cur: usize = 0;
            let mut bs: usize = 8;
            let mut bl: usize = 0;
            while i > 0
                invariant
                    i <= 8,
                    cur <= 8 - i,
                    bl <= 8,
                    bs <= 8,
                    g == v@,
                    g.len() == 8,
                    !ipv6_mapped(g),
                    cur == zero_run_len(g, i as int),
                    (bs as int, bl as nat) == best_run(g, i as int),
                decreases i,
            {
                i = i - 1;
                if v[i] == 0 {
                    cur = cur + 1;
                } else {
                    cur = 0;
                }
                if cur >= bl {
                    bs = i;
                    bl = cur;
                }
            }
            proof {
                lemma_best_run_bounds(g, 0);
            }
            if bl == 8 {
                let s = String::from_str("::");
                proof {
                    reveal_strlit("::");
                    assert(s@ =~= seq![':', ':']);
                }
                s
            } else if bl >= 2 {
                let mut s = hex_groups_range(&v, 0, bs);
                s.append("::");
                let rest = hex_groups_range(&v, bs + bl, 8);
                s.append(rest.as_str());
                proof {
                    reveal_strlit("::");
                    assert("::"@ =~= seq![':', ':']);
                    assert(g.take(bs as int) =~= g.subrange(0, bs as int));
                    assert(g.skip(bs as int + bl as int) =~= g.subrange(bs as int + bl as int, 8));
                    assert(s@ =~= ipv6_text(g));
                }
                s
            } else {
                let s = hex_groups_range(&v, 0, 8);
                proof {
                    assert(g.subrange(0, 8) =~= g);
                }
                s
            }
        },
    }
}

fn render_socket(sa: &SockAddress) -> (r: String)
    ensures
        r@ == socket_text(*sa),
{
    let ip = render_ip(&sa.ip);
    let port = dec_u128(sa.port as u128);
    match sa.ip {
        IpAddress::V4 { .. } => {
            let mut s = ip;
            s.append(":");
            s.append(port.as_str());
            proof {
                reveal_strlit(":");
                assert(":"@ =~= seq![':']);
            }
            s
        },
        IpAddress::V6 { .. } => {
            let mut s = String::from_str("[");
            s.append(ip.as_str());
            s.append("]:");
            s.append(port.as_str());
            proof {
                reveal_strlit("[");
                reveal_strlit("]:");
                assert("["@ =~= seq!['[']);
                assert("]:"@ =~= seq![']', ':']);
            }
            s
        },
    }
}

fn render_debuggable(tag: &String, text: &String) -> (r: String)
    ensures
        r@ == debuggable_text(tag@, text@),
{
    let mut s = String::from_str(tag.as_str());
    s.append("='");
    s.append(text.as_str());
    s.append("'");
    proof {
        reveal_strlit("='");
        reveal_strlit("'");
        assert("='"@ =~= seq!['=', '\'']);
        assert("'"@ =~= seq!['\'']);
    }
    s
}

impl BasicType {
    /// Renders the value in its canonical text form.
    pub fn render_text(&self) -> (r: String)
        ensures
            r@ == value_text(self@),
    {
        match self {
            BasicType::Bool(v) => String::from_str(bool_str(*v)),
            BasicType::I8(v) => dec_i128(*v as i128),
            BasicType::I16(v) => dec_i128(*v as i128),
            BasicType::I32(v) => dec_i128(*v as i128),
            BasicType::I64(v) => dec_i128(*v as i128),
            BasicType::I128(v) => dec_i128(*v),
            BasicType::U8(v) => dec_u128(*v as u128),
            BasicType::U16(v) => dec_u128(*v as u128),
            BasicType::U32(v) => dec_u128(*v as u128),
            BasicType::U64(v) => dec_u128(*v as u128),
            BasicType::U128(v) => dec_u128(*v),
            BasicType::StaticStr(v) => quote_text(v),
            BasicType::Str(v) => quote_text(v.as_str()),
            BasicType::Ip(v) => render_ip(v),
            BasicType::Socket(v) => render_socket(v),
            BasicType::Dur(v) => render_duration(v.secs, v.nanos),
            BasicType::SysTime(v) => render_duration(v.secs, v.nanos),
            BasicType::IoError { display, debug } => String::from_str(debug.as_str()),
            BasicType::Debuggable { tag, text } => render_debuggable(tag, text),
        }
    }

    /// Renders the value in its canonical JSON form.
    pub fn render_json(&self) -> (r: String)
        ensures
            r@ == value_json(self@),
    {
        match self {
            BasicType::Bool(v) => String::from_str(bool_str(*v)),
            BasicType::I8(v) => dec_i128(*v as i128),
            BasicType::I16(v) => dec_i128(*v as i128),
            BasicType::I32(v) => dec_i128(*v as i128),
            BasicType::I64(v) => dec_i128(*v as i128),
            BasicType::I128(v) => dec_i128(*v),
            BasicType::U8(v) => dec_u128(*v as u128),
            BasicType::U16(v) => dec_u128(*v as u128),
            BasicType::U32(v) => dec_u128(*v as u128),
            BasicType::U64(v) => dec_u128(*v as u128),
            BasicType::U128(v) => dec_u128(*v),
            BasicType::StaticStr(v) => json_quote(v),
            BasicType::Str(v) => json_quote(v.as_str()),
            BasicType::Ip(v) => {
                let t = render_ip(v);
                json_quote(t.as_str())
            },
            BasicType::Socket(v) => {
                let t = render_socket(v);
                json_quote(t.as_str())
            },
            BasicType::Dur(v) => {
                let t = render_duration(v.secs, v.nanos);
                json_quote(t.as_str())
            },
            BasicType::SysTime(v) => {
                let t = render_duration(v.secs, v.nanos);
                json_quote(t.as_str())
            },
            BasicType::IoError { display, debug } => json_quote(display.as_str()),
            BasicType::Debuggable { tag, text } => {
                let t = render_debuggable(tag, text);
                json_quote(t.as_str())
            },
        }
    }
}

} // verus!
