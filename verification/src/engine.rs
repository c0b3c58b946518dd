//! The value-probe engine: the per-frame decision core.
//!
//! Once per redraw frame the host hands the engine one node's schema,
//! value, transient store and the user interaction that happened on
//! that node (at most one per frame).  The engine applies the edit and
//! answers with the widget the host should draw.  Nothing here renders
//! and nothing here computes on floats: float arithmetic arrives
//! precomputed in a [`FloatAux`], and the engine is verified for every
//! value the host could hand it.

use vstd::prelude::*;
use vstd::string::StringExecFns;
use crate::desc::{Desc, DescV};
use crate::value::{Value, ValueV};
use crate::text::{dec_seq_signed, i64_to_dec};

verus! {

/// What the user did to this node this frame.
pub enum ProbeEvent {
    /// No interaction.
    Idle,
    /// The boolean toggle was switched.
    SetBool(bool),
    /// The numeric editor produced a new integer.
    EditInt(i64),
    /// The numeric editor produced new float bits, already clamped by
    /// the host's range-aware editor.
    EditFloat(u64),
    /// The free-text editor produced a new string.
    EditText(String),
    /// The variant at this index was picked in the dropdown.
    SelectVariant(usize),
    /// The mismatch-recovery or reset button was clicked.
    ClickFix,
    /// The add affordance of a list or map was clicked.
    ClickAdd,
    /// The pending new-key text of a map was edited.
    EditNewKey(String),
    /// The inferred-schema editor changed the schema at this node.
    EditDesc(Desc),
}

/// Host-computed float facts for one frame.
///
/// The engine cannot compute on floats, so whenever the schema at a
/// node is `Float` (or the value is a float under an `Int` schema) the
/// host computes these plain values first and the engine's contract
/// holds for whatever was handed in.
pub struct FloatAux {
    /// Both float bounds are present and the lower exceeds the upper.
    pub range_invalid: bool,
    /// Textual form of the lower float bound.
    pub min_text: String,
    /// Textual form of the upper float bound.
    pub max_text: String,
    /// The float value truncated toward zero, for conversion to int.
    pub trunc: i64,
    /// An int value widened to float and clamped to the float bounds.
    pub convert_bits: u64,
    /// Textual form of the converted value.
    pub convert_text: String,
    /// The clamp-safe default under the float bounds.
    pub reset_bits: u64,
    /// Textual form of that default.
    pub reset_text: String,
    /// Textual form of the float value, for conversion to string.
    pub float_text: String,
}

impl FloatAux {
    /// A placeholder for nodes where no float is in play.
    pub fn inert() -> (r: FloatAux)
        ensures
            !r.range_invalid,
            r.trunc == 0,
    {
        FloatAux {
            range_invalid: false,
            min_text: String::new(),
            max_text: String::new(),
            trunc: 0,
            convert_bits: 0,
            convert_text: String::new(),
            reset_bits: 0,
            reset_text: String::new(),
            float_text: String::new(),
        }
    }
}

/// The widget the host should draw for this node this frame.
pub enum Widget {
    /// A boolean toggle showing this state.
    BoolToggle(bool),
    /// A range-aware integer editor.
    IntEditor { value: i64, min: Option<i64>, max: Option<i64> },
    /// A range-aware float editor over bit patterns.
    FloatEditor { bits: u64, min: Option<u64>, max: Option<u64> },
    /// A free-text editor showing this string.
    TextEdit(String),
    /// A dropdown over the fixed variants.
    ComboBox { selected: String, variants: Vec<String> },
    /// A list header: element-kind label plus the add affordance.
    ListHeader { elem_kind: String },
    /// A list header whose element schema is being inferred: the
    /// sub-schema editor plus the add affordance.
    ListHeaderInfer { desc: Desc },
    /// A map header: value-kind label, pending-key field, add affordance.
    MapHeader { value_kind: String, new_key: String },
    /// A map header whose value schema is being inferred.
    MapHeaderInfer { desc: Desc, new_key: String },
    /// The schema editor for a node with no schema at all.
    DescEditor { desc: Desc },
    /// The inert invalid-range message.
    InvalidRange { message: String },
    /// A mismatch diagnostic: bold message, one recovery button, and a
    /// trailing marker glyph.
    Mismatch { message: String, button: String },
}

/// The mathematical shape of a [`Widget`].
pub enum WidgetV {
    BoolToggle(bool),
    IntEditor { value: i64, min: Option<i64>, max: Option<i64> },
    FloatEditor { bits: u64, min: Option<u64>, max: Option<u64> },
    TextEdit(Seq<char>),
    ComboBox { selected: Seq<char>, variants: Seq<Seq<char>> },
    ListHeader { elem_kind: Seq<char> },
    ListHeaderInfer { desc: DescV },
    MapHeader { value_kind: Seq<char>, new_key: Seq<char> },
    MapHeaderInfer { desc: DescV, new_key: Seq<char> },
    DescEditor { desc: DescV },
    InvalidRange { message: Seq<char> },
    Mismatch { message: Seq<char>, button: Seq<char> },
}

impl View for Widget {
    type V = WidgetV;

    open spec fn view(&self) -> WidgetV {
        match *self {
            Widget::BoolToggle(b) => WidgetV::BoolToggle(b),
            Widget::IntEditor { value, min, max } => WidgetV::IntEditor { value, min, max },
            Widget::FloatEditor { bits, min, max } => WidgetV::FloatEditor { bits, min, max },
            Widget::TextEdit(s) => WidgetV::TextEdit(s@),
            Widget::ComboBox { selected, variants } => WidgetV::ComboBox {
                selected: selected@,
                variants: Seq::new(variants@.len(), |i: int| variants@[i]@),
            },
            Widget::ListHeader { elem_kind } => WidgetV::ListHeader { elem_kind: elem_kind@ },
            Widget::ListHeaderInfer { desc } => WidgetV::ListHeaderInfer { desc: desc@ },
            Widget::MapHeader { value_kind, new_key } => WidgetV::MapHeader {
                value_kind: value_kind@,
                new_key: new_key@,
            },
            Widget::MapHeaderInfer { desc, new_key } => WidgetV::MapHeaderInfer {
                desc: desc@,
                new_key: new_key@,
            },
            Widget::DescEditor { desc } => WidgetV::DescEditor { desc: desc@ },
            Widget::InvalidRange { message } => WidgetV::InvalidRange { message: message@ },
            Widget::Mismatch { message, button } => WidgetV::Mismatch {
                message: message@,
                button: button@,
            },
        }
    }
}

/// A schema/value pair agrees on its outermost shape.
pub open spec fn matches_desc(d: DescV, v: ValueV) -> bool {
    match (d, v) {
        (DescV::Bool, ValueV::Bool(_)) => true,
        (DescV::Int { .. }, ValueV::Int(_)) => true,
        (DescV::Float { .. }, ValueV::Float(_)) => true,
        (DescV::String { .. }, ValueV::String(_)) => true,
        (DescV::List { .. }, ValueV::List(_)) => true,
        (DescV::Dict { .. }, ValueV::Dict(_)) => true,
        _ => false,
    }
}

/// Clamping under optional bounds: the lower bound is applied first,
/// then the upper; with both bounds present and ordered this is the
/// usual clamp.
pub open spec fn clamp_int(x: int, min: Option<i64>, max: Option<i64>) -> int {
    let lo = match min {
        Option::Some(m) => if x < m { m as int } else { x },
        Option::None => x,
    };
    match max {
        Option::Some(m) => if lo > m { m as int } else { lo },
        Option::None => lo,
    }
}

/// Both integer bounds are present and the lower exceeds the upper.
pub open spec fn int_range_invalid(min: Option<i64>, max: Option<i64>) -> bool {
    match (min, max) {
        (Option::Some(a), Option::Some(b)) => a > b,
        _ => false,
    }
}

/// The clamp-safe default under optional bounds: zero pulled into the
/// admissible range.
pub open spec fn int_reset(min: Option<i64>, max: Option<i64>) -> int {
    clamp_int(0, min, max)
}

fn clamp_int_exec(x: i64, min: Option<i64>, max: Option<i64>) -> (r: i64)
    ensures
        r as int == clamp_int(x as int, min, max),
{
    let lo = match min {
        Option::Some(m) => if x < m { m } else { x },
        Option::None => x,
    };
    match max {
        Option::Some(m) => if lo > m { m } else { lo },
        Option::None => lo,
    }
}

/// The mismatch diagnostic text: expected kind against actual kind.
pub open spec fn mismatch_msg(expected: Seq<char>, actual: Seq<char>) -> Seq<char> {
    "Expected "@ + expected + ", but is "@ + actual + " instead"@
}

/// The inert diagnostic for an integer schema whose bounds are out of
/// order.
pub open spec fn invalid_range_msg(min: int, max: int) -> Seq<char> {
    "Invalid range. `min = "@ + dec_seq_signed(min) + "` must be not greater than `max = "@
        + dec_seq_signed(max) + "`."@
}

/// The same diagnostic with host-rendered float bounds.
pub open spec fn invalid_range_msg_text(min_text: Seq<char>, max_text: Seq<char>) -> Seq<char> {
    "Invalid range. `min = "@ + min_text + "` must be not greater than `max = "@ + max_text
        + "`."@
}

/// Build the mismatch diagnostic text.
pub fn mismatch_message(expected: &str, actual: &str) -> (r: String)
    ensures
        r@ == mismatch_msg(expected@, actual@),
{
    let mut r = "Expected ".to_owned();
    r.append(expected);
    r.append(", but is ");
    r.append(actual);
    r.append(" instead");
    proof {
        assert(r@ =~= mismatch_msg(expected@, actual@));
    }
    r
}

/// Build the invalid-range message for integer bounds.
pub fn invalid_range_message(min: i64, max: i64) -> (r: String)
    ensures
        r@ == invalid_range_msg(min as int, max as int),
{
    let mut r = "Invalid range. `min = ".to_owned();
    let min_s = i64_to_dec(min);
    r.append(min_s.as_str());
    r.append("` must be not greater than `max = ");
    let max_s = i64_to_dec(max);
    r.append(max_s.as_str());
    r.append("`.");
    proof {
        assert(r@ =~= invalid_range_msg(min as int, max as int));
    }
    r
}

/// Build the invalid-range message from host-rendered bound text.
pub fn invalid_range_message_text(min_text: &str, max_text: &str) -> (r: String)
    ensures
        r@ == invalid_range_msg_text(min_text@, max_text@),
{
    let mut r = "Invalid range. `min = ".to_owned();
    r.append(min_text);
    r.append("` must be not greater than `max = ");
    r.append(max_text);
    r.append("`.");
    proof {
        assert(r@ =~= invalid_range_msg_text(min_text@, max_text@));
    }
    r
}

fn convert_button_int(x: i64) -> (r: String)
    ensures
        r@ == "Convert to "@ + dec_seq_signed(x as int),
{
    let mut r = "Convert to ".to_owned();
    let s = i64_to_dec(x);
    r.append(s.as_str());
    r
}

fn reset_button_int(x: i64) -> (r: String)
    ensures
        r@ == "Reset to "@ + dec_seq_signed(x as int),
{
    let mut r = "Reset to ".to_owned();
    let s = i64_to_dec(x);
    r.append(s.as_str());
    r
}

fn convert_button_text(x: &str) -> (r: String)
    ensures
        r@ == "Convert to "@ + x@,
{
    let mut r = "Convert to ".to_owned();
    r.append(x);
    r
}

fn reset_button_text(x: &str) -> (r: String)
    ensures
        r@ == "Reset to "@ + x@,
{
    let mut r = "Reset to ".to_owned();
    r.append(x);
    r
}

/// The quoted textual form offered when converting a leaf to a string.
pub open spec fn quoted(s: Seq<char>) -> Seq<char> {
    seq!['"'] + s + seq!['"']
}

fn convert_button_quoted(x: &str) -> (r: String)
    ensures
        r@ == "Convert to "@ + quoted(x@),
{
    let mut r = "Convert to ".to_owned();
    r.append("\"");
    r.append(x);
    r.append("\"");
    proof {
        reveal_strlit("\"");
        assert("\""@ =~= seq!['"']);
        assert(r@ =~= "Convert to "@ + quoted(x@));
    }
    r
}

} // verus!

use crate::ident::{Id, TAG_LIST, TAG_MAP};
use crate::store::Store;
use crate::value::{keys_distinct, entries_view, dict_insert_post, map_insert};
use crate::desc::clone_strings;

verus! {

/// The view of a string-variant list.
pub open spec fn strings_view(vs: Seq<String>) -> Seq<Seq<char>> {
    Seq::new(vs.len(), |i: int| vs[i]@)
}

/// One node of the value tree, as the engine sees it for one frame.
pub struct ValueProbe {
    /// The schema this node is edited under; absent means the schema
    /// itself is being inferred at this node.
    pub desc: Option<Desc>,
    /// The schema inferred at this node this frame, for recursion.
    pub mydesc: Desc,
    /// The identity of this node's transient-state slot this frame.
    pub myid: Id,
    /// The identity of this node.
    pub id_source: Id,
}

impl ValueProbe {
    /// A probe for one node: its schema (or none, to infer one) and
    /// its identity.
    pub fn new(desc: Option<Desc>, id_source: Id) -> (r: ValueProbe)
        ensures
            r.desc == desc,
            r.mydesc == Desc::Bool,
            r.id_source@ == id_source@,
            r.myid@ == id_source@,
    {
        let myid = id_source.clone_id();
        ValueProbe { desc, mydesc: Desc::Bool, myid, id_source }
    }

    /// Render one frame of this node: apply the user's event to the
    /// value and the transient store, and answer with the widget to
    /// draw.
    ///
    /// The contract pins down, for every schema/value pair: which
    /// widget is shown, what each event does to the value, and that a
    /// frame with no interaction mutates nothing — re-rendering an
    /// unchanged pair while idle is the identity.  A mismatched pair is
    /// never repaired silently: the value only changes on an explicit
    /// `ClickFix`.
    pub fn probe(
        &mut self,
        value: &mut Value,
        store: &mut Store,
        event: &ProbeEvent,
        faux: &FloatAux,
    ) -> (w: Widget)
        requires
            old(store).wf(),
            old(value)@ matches ValueV::Dict(e) ==> keys_distinct(e),
        ensures
            final(self).desc == old(self).desc,
            final(self).id_source@ == old(self).id_source@,
            final(store).wf(),
            *event is Idle ==> *final(value) == *old(value),
            // A node with no schema: edit and persist the inferred
            // schema, touch nothing else.
            old(self).desc is None ==> ({
                let d0 = match old(store).desc_at(old(self).id_source@) {
                    Option::Some(dv) => dv,
                    Option::None => DescV::Bool,
                };
                let dv = match *event {
                    ProbeEvent::EditDesc(nd) => nd@,
                    _ => d0,
                };
                &&& final(self).mydesc@ == dv
                &&& final(self).myid@ == old(self).id_source@
                &&& *final(value) == *old(value)
                &&& final(store).desc_at(old(self).id_source@) == Option::Some(dv)
                &&& forall|k: Seq<u64>|
                    k != old(self).id_source@ ==> final(store).desc_at(k) == old(store).desc_at(k)
                &&& forall|k: Seq<u64>| final(store).key_at(k) == old(store).key_at(k)
                &&& w@ == WidgetV::DescEditor { desc: dv }
            }),
            // A boolean slot.
            old(self).desc matches Option::Some(Desc::Bool) ==> ({
                &&& final(self).mydesc == old(self).mydesc
                &&& forall|k: Seq<u64>| final(store).desc_at(k) == old(store).desc_at(k)
                &&& forall|k: Seq<u64>| final(store).key_at(k) == old(store).key_at(k)
                &&& match old(value)@ {
                    ValueV::Bool(b) => ({
                        let nb = match *event {
                            ProbeEvent::SetBool(x) => x,
                            _ => b,
                        };
                        &&& final(value)@ == ValueV::Bool(nb)
                        &&& w@ == WidgetV::BoolToggle(nb)
                    }),
                    _ => ({
                        &&& w@ == WidgetV::Mismatch {
                            message: mismatch_msg("boolean"@, old(value)@.kind()),
                            button: "Reset to false"@,
                        }
                        &&& if *event is ClickFix {
                            final(value)@ == ValueV::Bool(false)
                        } else {
                            *final(value) == *old(value)
                        }
                    }),
                }
            }),
            // An integer slot with optional bounds.
            old(self).desc matches Option::Some(Desc::Int { min, max }) ==> ({
                &&& final(self).mydesc == old(self).mydesc
                &&& forall|k: Seq<u64>| final(store).desc_at(k) == old(store).desc_at(k)
                &&& forall|k: Seq<u64>| final(store).key_at(k) == old(store).key_at(k)
                &&& if int_range_invalid(min, max) {
                    &&& w@ == WidgetV::InvalidRange {
                        message: invalid_range_msg(min->0 as int, max->0 as int),
                    }
                    &&& *final(value) == *old(value)
                } else {
                    match old(value)@ {
                        ValueV::Int(v) => ({
                            let nv = match *event {
                                ProbeEvent::EditInt(n) => clamp_int(n as int, min, max),
                                _ => v as int,
                            };
                            &&& final(value)@ == ValueV::Int(nv as i64)
                            &&& w@ == WidgetV::IntEditor { value: nv as i64, min, max }
                            &&& (*event is EditInt && min is Some) ==> min->0 <= nv
                            &&& (*event is EditInt && max is Some) ==> nv <= max->0
                        }),
                        ValueV::Float(_) => ({
                            let x = clamp_int(faux.trunc as int, min, max);
                            &&& w@ == WidgetV::Mismatch {
                                message: mismatch_msg("integer"@, "float"@),
                                button: "Convert to "@ + dec_seq_signed(x),
                            }
                            &&& if *event is ClickFix {
                                final(value)@ == ValueV::Int(x as i64)
                            } else {
                                *final(value) == *old(value)
                            }
                        }),
                        _ => ({
                            let r = int_reset(min, max);
                            &&& w@ == WidgetV::Mismatch {
                                message: mismatch_msg("integer"@, old(value)@.kind()),
                                button: "Reset to "@ + dec_seq_signed(r),
                            }
                            &&& if *event is ClickFix {
                                final(value)@ == ValueV::Int(r as i64)
                            } else {
                                *final(value) == *old(value)
                            }
                        }),
                    }
                }
            }),
            // A float slot: all float arithmetic arrives in `faux`.
            old(self).desc matches Option::Some(Desc::Float { min, max }) ==> ({
                &&& final(self).mydesc == old(self).mydesc
                &&& forall|k: Seq<u64>| final(store).desc_at(k) == old(store).desc_at(k)
                &&& forall|k: Seq<u64>| final(store).key_at(k) == old(store).key_at(k)
                &&& if faux.range_invalid {
                    &&& w@ == WidgetV::InvalidRange {
                        message: invalid_range_msg_text(faux.min_text@, faux.max_text@),
                    }
                    &&& *final(value) == *old(value)
                } else {
                    match old(value)@ {
                        ValueV::Float(b) => ({
                            let nb = match *event {
                                ProbeEvent::EditFloat(x) => x,
                                _ => b,
                            };
                            &&& final(value)@ == ValueV::Float(nb)
                            &&& w@ == WidgetV::FloatEditor { bits: nb, min, max }
                        }),
                        ValueV::Int(_) => ({
                            &&& w@ == WidgetV::Mismatch {
                                message: mismatch_msg("float"@, "int"@),
                                button: "Convert to "@ + faux.convert_text@,
                            }
                            &&& if *event is ClickFix {
                                final(value)@ == ValueV::Float(faux.convert_bits)
                            } else {
                                *final(value) == *old(value)
                            }
                        }),
                        _ => ({
                            &&& w@ == WidgetV::Mismatch {
                                message: mismatch_msg("float"@, old(value)@.kind()),
                                button: "Reset to "@ + faux.reset_text@,
                            }
                            &&& if *event is ClickFix {
                                final(value)@ == ValueV::Float(faux.reset_bits)
                            } else {
                                *final(value) == *old(value)
                            }
                        }),
                    }
                }
            }),
            // A string slot, free-form or restricted to variants.
            old(self).desc matches Option::Some(Desc::String { variants }) ==> ({
                &&& final(self).mydesc == old(self).mydesc
                &&& forall|k: Seq<u64>| final(store).desc_at(k) == old(store).desc_at(k)
                &&& forall|k: Seq<u64>| final(store).key_at(k) == old(store).key_at(k)
                &&& match variants {
                    Option::None => match old(value)@ {
                        ValueV::String(s) => ({
                            let ns = match *event {
                                ProbeEvent::EditText(t) => t@,
                                _ => s,
                            };
                            &&& final(value)@ == ValueV::String(ns)
                            &&& w@ == WidgetV::TextEdit(ns)
                        }),
                        ValueV::Bool(b) => ({
                            let s = if b { "true"@ } else { "false"@ };
                            &&& w@ == WidgetV::Mismatch {
                                message: mismatch_msg("string"@, "bool"@),
                                button: "Convert to "@ + quoted(s),
                            }
                            &&& if *event is ClickFix {
                                final(value)@ == ValueV::String(s)
                            } else {
                                *final(value) == *old(value)
                            }
                        }),
                        ValueV::Int(v) => ({
                            let s = dec_seq_signed(v as int);
                            &&& w@ == WidgetV::Mismatch {
                                message: mismatch_msg("string"@, "int"@),
                                button: "Convert to "@ + quoted(s),
                            }
                            &&& if *event is ClickFix {
                                final(value)@ == ValueV::String(s)
                            } else {
                                *final(value) == *old(value)
                            }
                        }),
                        ValueV::Float(_) => ({
                            &&& w@ == WidgetV::Mismatch {
                                message: mismatch_msg("string"@, "float"@),
                                button: "Convert to "@ + quoted(faux.float_text@),
                            }
                            &&& if *event is ClickFix {
                                final(value)@ == ValueV::String(faux.float_text@)
                            } else {
                                *final(value) == *old(value)
                            }
                        }),
                        _ => ({
                            &&& w@ == WidgetV::Mismatch {
                                message: mismatch_msg("string"@, old(value)@.kind()),
                                button: "Reset to empty string"@,
                            }
                            &&& if *event is ClickFix {
                                final(value)@ == ValueV::String(Seq::empty())
                            } else {
                                *final(value) == *old(value)
                            }
                        }),
                    },
                    Option::Some(vs) => match old(value)@ {
                        ValueV::String(s) => ({
                            let nv = match *event {
                                ProbeEvent::SelectVariant(i) => if i < vs@.len() {
                                    vs@[i as int]@
                                } else {
                                    s
                                },
                                _ => s,
                            };
                            &&& final(value)@ == ValueV::String(nv)
                            &&& w@ == WidgetV::ComboBox {
                                selected: nv,
                                variants: strings_view(vs@),
                            }
                        }),
                        _ => ({
                            let first = if vs@.len() > 0 { vs@[0]@ } else { Seq::empty() };
                            &&& w@ == WidgetV::Mismatch {
                                message: mismatch_msg("string"@, old(value)@.kind()),
                                button: "Reset to default value"@,
                            }
                            &&& if *event is ClickFix {
                                final(value)@ == ValueV::String(first)
                            } else {
                                *final(value) == *old(value)
                            }
                        }),
                    },
                }
            }),
            // A list slot.
            old(self).desc matches Option::Some(Desc::List { elem_desc }) ==> ({
                match old(value)@ {
                    ValueV::List(elems) => match elem_desc {
                        Option::Some(ed) => ({
                            &&& final(self).mydesc == old(self).mydesc
                            &&& forall|k: Seq<u64>|
                                final(store).desc_at(k) == old(store).desc_at(k)
                            &&& forall|k: Seq<u64>| final(store).key_at(k) == old(store).key_at(k)
                            &&& final(value)@ == ValueV::List(
                                if *event is ClickAdd {
                                    elems.push(ed@.default_value())
                                } else {
                                    elems
                                },
                            )
                            &&& w@ == WidgetV::ListHeader { elem_kind: ed@.kind() }
                        }),
                        Option::None => ({
                            let slot = old(self).id_source@.push(TAG_LIST);
                            let d0 = match old(store).desc_at(slot) {
                                Option::Some(dv) => dv,
                                Option::None => DescV::Bool,
                            };
                            let dv = match *event {
                                ProbeEvent::EditDesc(nd) => nd@,
                                _ => d0,
                            };
                            &&& final(self).mydesc@ == dv
                            &&& final(self).myid@ == slot
                            &&& final(store).desc_at(slot) == Option::Some(dv)
                            &&& forall|k: Seq<u64>|
                                k != slot ==> final(store).desc_at(k) == old(store).desc_at(k)
                            &&& forall|k: Seq<u64>| final(store).key_at(k) == old(store).key_at(k)
                            &&& final(value)@ == ValueV::List(
                                if *event is ClickAdd {
                                    elems.push(dv.default_value())
                                } else {
                                    elems
                                },
                            )
                            &&& w@ == WidgetV::ListHeaderInfer { desc: dv }
                        }),
                    },
                    _ => ({
                        &&& final(self).mydesc == old(self).mydesc
                        &&& forall|k: Seq<u64>| final(store).desc_at(k) == old(store).desc_at(k)
                        &&& forall|k: Seq<u64>| final(store).key_at(k) == old(store).key_at(k)
                        &&& w@ == WidgetV::Mismatch {
                            message: mismatch_msg("list"@, old(value)@.kind()),
                            button: "Reset to empty list"@,
                        }
                        &&& if *event is ClickFix {
                            final(value)@ == ValueV::List(Seq::empty())
                        } else {
                            *final(value) == *old(value)
                        }
                    }),
                }
            }),
            // A map slot.
            old(self).desc matches Option::Some(Desc::Dict { value_desc }) ==> ({
                match old(value)@ {
                    ValueV::Dict(entries) => ({
                        let slot = old(self).id_source@.push(TAG_MAP);
                        let key0 = match old(store).key_at(slot) {
                            Option::Some(s) => s,
                            Option::None => Seq::empty(),
                        };
                        let key1 = match *event {
                            ProbeEvent::EditNewKey(s) => s@,
                            _ => key0,
                        };
                        let dv = match value_desc {
                            Option::Some(vd) => vd@,
                            Option::None => match *event {
                                ProbeEvent::EditDesc(nd) => nd@,
                                _ => match old(store).desc_at(slot) {
                                    Option::Some(d0) => d0,
                                    Option::None => DescV::Bool,
                                },
                            },
                        };
                        let shown_key = if *event is ClickAdd { Seq::<char>::empty() } else { key1 };
                        &&& final(self).myid@ == slot
                        &&& if *event is ClickAdd {
                            &&& final(value)@ matches ValueV::Dict(newe)
                            &&& dict_insert_post(entries, final(value)@->Dict_0, key1, dv.default_value())
                        } else {
                            *final(value) == *old(value)
                        }
                        &&& final(store).key_at(slot) == Option::Some(shown_key)
                        &&& forall|k: Seq<u64>|
                            k != slot ==> final(store).key_at(k) == old(store).key_at(k)
                        &&& match value_desc {
                            Option::Some(vd) => {
                                &&& forall|k: Seq<u64>|
                                    final(store).desc_at(k) == old(store).desc_at(k)
                                &&& final(self).mydesc == old(self).mydesc
                                &&& w@ == WidgetV::MapHeader {
                                    value_kind: vd@.kind(),
                                    new_key: shown_key,
                                }
                            },
                            Option::None => {
                                &&& final(store).desc_at(slot) == Option::Some(dv)
                                &&& forall|k: Seq<u64>|
                                    k != slot ==> final(store).desc_at(k) == old(store).desc_at(k)
                                &&& final(self).mydesc@ == dv
                                &&& w@ == WidgetV::MapHeaderInfer { desc: dv, new_key: shown_key }
                            },
                        }
                    }),
                    _ => ({
                        &&& final(self).mydesc == old(self).mydesc
                        &&& forall|k: Seq<u64>| final(store).desc_at(k) == old(store).desc_at(k)
                        &&& forall|k: Seq<u64>| final(store).key_at(k) == old(store).key_at(k)
                        &&& w@ == WidgetV::Mismatch {
                            message: mismatch_msg("map"@, old(value)@.kind()),
                            button: "Reset to empty map"@,
                        }
                        &&& if *event is ClickFix {
                            final(value)@ == ValueV::Dict(Seq::empty())
                        } else {
                            *final(value) == *old(value)
                        }
                    }),
                }
            }),
    {
        let w: Widget;
        match &self.desc {
            Option::None => {
                self.myid = self.id_source.clone_id();
                let stored = store.get_desc(&self.myid);
                let mut d = match stored {
                    Option::Some(d0) => d0,
                    Option::None => Desc::Bool,
                };
                if let ProbeEvent::EditDesc(nd) = event {
                    d = nd.clone();
                }
                store.insert_desc(&self.myid, d.clone());
                self.mydesc = d;
                w = Widget::DescEditor { desc: self.mydesc.clone() };
            },
            Option::Some(Desc::Bool) => {
                match value {
                    Value::Bool(b) => {
                        let b0: bool = *b;
                        let nb = if let ProbeEvent::SetBool(x) = event {
                            *x
                        } else {
                            b0
                        };
                        *value = Value::Bool(nb);
                        w = Widget::BoolToggle(nb);
                    },
                    _ => {
                        let msg = mismatch_message("boolean", value.kind());
                        let btn = "Reset to false".to_owned();
                        if let ProbeEvent::ClickFix = event {
                            *value = Value::Bool(false);
                        }
                        w = Widget::Mismatch { message: msg, button: btn };
                    },
                }
            },
            Option::Some(Desc::Int { min, max }) => {
                let mn: Option<i64> = *min;
                let mx: Option<i64> = *max;
                let invalid = match (mn, mx) {
                    (Option::Some(a), Option::Some(b)) => a > b,
                    _ => false,
                };
                if invalid {
                    let a = match mn {
                        Option::Some(a) => a,
                        Option::None => 0,
                    };
                    let b = match mx {
                        Option::Some(b) => b,
                        Option::None => 0,
                    };
                    w = Widget::InvalidRange { message: invalid_range_message(a, b) };
                } else {
                    match value {
                        Value::Int(v) => {
                            let v0: i64 = *v;
                            let nv = if let ProbeEvent::EditInt(n) = event {
                                clamp_int_exec(*n, mn, mx)
                            } else {
                                v0
                            };
                            *value = Value::Int(nv);
                            w = Widget::IntEditor { value: nv, min: mn, max: mx };
                        },
                        Value::Float(_) => {
                            let x = clamp_int_exec(faux.trunc, mn, mx);
                            let msg = mismatch_message("integer", "float");
                            let btn = convert_button_int(x);
                            if let ProbeEvent::ClickFix = event {
                                *value = Value::Int(x);
                            }
                            w = Widget::Mismatch { message: msg, button: btn };
                        },
                        _ => {
                            let r = clamp_int_exec(0, mn, mx);
                            let msg = mismatch_message("integer", value.kind());
                            let btn = reset_button_int(r);
                            if let ProbeEvent::ClickFix = event {
                                *value = Value::Int(r);
                            }
                            w = Widget::Mismatch { message: msg, button: btn };
                        },
                    }
                }
            },
            Option::Some(Desc::Float { min, max }) => {
                let fmn: Option<u64> = *min;
                let fmx: Option<u64> = *max;
                if faux.range_invalid {
                    w = Widget::InvalidRange {
                        message: invalid_range_message_text(
                            faux.min_text.as_str(),
                            faux.max_text.as_str(),
                        ),
                    };
                } else {
                    match value {
                        Value::Float(bits) => {
                            let b0: u64 = *bits;
                            let nb = if let ProbeEvent::EditFloat(x) = event {
                                *x
                            } else {
                                b0
                            };
                            *value = Value::Float(nb);
                            w = Widget::FloatEditor { bits: nb, min: fmn, max: fmx };
                        },
                        Value::Int(_) => {
                            let msg = mismatch_message("float", "int");
                            let btn = convert_button_text(faux.convert_text.as_str());
                            if let ProbeEvent::ClickFix = event {
                                *value = Value::Float(faux.convert_bits);
                            }
                            w = Widget::Mismatch { message: msg, button: btn };
                        },
                        _ => {
                            let msg = mismatch_message("float", value.kind());
                            let btn = reset_button_text(faux.reset_text.as_str());
                            if let ProbeEvent::ClickFix = event {
                                *value = Value::Float(faux.reset_bits);
                            }
                            w = Widget::Mismatch { message: msg, button: btn };
                        },
                    }
                }
            },
            Option::Some(Desc::String { variants }) => {
                match variants {
                    Option::None => match value {
                        Value::String(s) => {
                            let ns: String = if let ProbeEvent::EditText(t) = event {
                                t.clone()
                            } else {
                                s.clone()
                            };
                            *value = Value::String(ns.clone());
                            w = Widget::TextEdit(ns);
                        },
                        Value::Bool(b) => {
                            let s = if *b {
                                "true".to_owned()
                            } else {
                                "false".to_owned()
                            };
                            let msg = mismatch_message("string", "bool");
                            let btn = convert_button_quoted(s.as_str());
                            if let ProbeEvent::ClickFix = event {
                                *value = Value::String(s);
                            }
                            w = Widget::Mismatch { message: msg, button: btn };
                        },
                        Value::Int(v) => {
                            let s = i64_to_dec(*v);
                            let msg = mismatch_message("string", "int");
                            let btn = convert_button_quoted(s.as_str());
                            if let ProbeEvent::ClickFix = event {
                                *value = Value::String(s);
                            }
                            w = Widget::Mismatch { message: msg, button: btn };
                        },
                        Value::Float(_) => {
                            let s = faux.float_text.clone();
                            let msg = mismatch_message("string", "float");
                            let btn = convert_button_quoted(s.as_str());
                            if let ProbeEvent::ClickFix = event {
                                *value = Value::String(s);
                            }
                            w = Widget::Mismatch { message: msg, button: btn };
                        },
                        _ => {
                            let msg = mismatch_message("string", value.kind());
                            let btn = "Reset to empty string".to_owned();
                            if let ProbeEvent::ClickFix = event {
                                *value = Value::String(String::new());
                            }
                            w = Widget::Mismatch { message: msg, button: btn };
                        },
                    },
                    Option::Some(vs) => match value {
                        Value::String(s) => {
                            let mut sel: String = s.clone();
                            if let ProbeEvent::SelectVariant(i) = event {
                                if *i < vs.len() {
                                    sel = vs[*i].clone();
                                }
                            }
                            *value = Value::String(sel.clone());
                            let shown = clone_strings(vs);
                            proof {
                                assert(Seq::new(shown@.len(), |i: int| shown@[i]@)
                                    =~= strings_view(vs@));
                            }
                            w = Widget::ComboBox { selected: sel, variants: shown };
                        },
                        _ => {
                            let msg = mismatch_message("string", value.kind());
                            let btn = "Reset to default value".to_owned();
                            if let ProbeEvent::ClickFix = event {
                                let first = if vs.len() > 0 {
                                    vs[0].clone()
                                } else {
                                    String::new()
                                };
                                *value = Value::String(first);
                            }
                            w = Widget::Mismatch { message: msg, button: btn };
                        },
                    },
                }
            },
            Option::Some(Desc::List { elem_desc }) => {
                match value {
                    Value::List(elems) => match elem_desc {
                        Option::Some(ed) => {
                            if let ProbeEvent::ClickAdd = event {
                                let ghost before = elems@;
                                elems.push(ed.default_value());
                                proof {
                                    assert(old(value)@->List_0 =~= Seq::new(
                                        before.len(),
                                        |i: int|
                                            if 0 <= i < before.len() {
                                                crate::value::value_view(before[i])
                                            } else {
                                                ValueV::Bool(false)
                                            },
                                    ));
                                    assert(value@->List_0 =~= old(value)@->List_0.push(
                                        ed@.default_value(),
                                    ));
                                    assert(value@ == ValueV::List(old(value)@->List_0.push(
                                        ed@.default_value(),
                                    )));
                                }
                            }
                            w = Widget::ListHeader { elem_kind: ed.kind().to_owned() };
                        },
                        Option::None => {
                            self.myid = self.id_source.with(TAG_LIST);
                            let stored = store.get_desc(&self.myid);
                            let mut d = match stored {
                                Option::Some(d0) => d0,
                                Option::None => Desc::Bool,
                            };
                            if let ProbeEvent::EditDesc(nd) = event {
                                d = nd.clone();
                            }
                            store.insert_desc(&self.myid, d.clone());
                            if let ProbeEvent::ClickAdd = event {
                                let ghost before = elems@;
                                elems.push(d.default_value());
                                proof {
                                    assert(old(value)@->List_0 =~= Seq::new(
                                        before.len(),
                                        |i: int|
                                            if 0 <= i < before.len() {
                                                crate::value::value_view(before[i])
                                            } else {
                                                ValueV::Bool(false)
                                            },
                                    ));
                                    assert(value@->List_0 =~= old(value)@->List_0.push(
                                        d@.default_value(),
                                    ));
                                    assert(value@ == ValueV::List(old(value)@->List_0.push(
                                        d@.default_value(),
                                    )));
                                }
                            }
                            self.mydesc = d;
                            w = Widget::ListHeaderInfer { desc: self.mydesc.clone() };
                        },
                    },
                    _ => {
                        let msg = mismatch_message("list", value.kind());
                        let btn = "Reset to empty list".to_owned();
                        if let ProbeEvent::ClickFix = event {
                            *value = Value::List(Vec::new());
                            proof {
                                assert(value@->List_0 =~= Seq::<ValueV>::empty());
                            }
                        }
                        w = Widget::Mismatch { message: msg, button: btn };
                    },
                }
            },
            Option::Some(Desc::Dict { value_desc }) => {
                match value {
                    Value::Dict(entries) => {
                        self.myid = self.id_source.with(TAG_MAP);
                        let k0 = match store.get_key(&self.myid) {
                            Option::Some(s) => s,
                            Option::None => String::new(),
                        };
                        let k1: String = if let ProbeEvent::EditNewKey(s) = event {
                            s.clone()
                        } else {
                            k0
                        };
                        match value_desc {
                            Option::Some(vd) => {
                                if let ProbeEvent::ClickAdd = event {
                                    proof {
                                        assert(entries_view(entries@) =~= old(value)@->Dict_0);
                                    }
                                    map_insert(entries, k1, vd.default_value());
                                    proof {
                                        assert(entries_view(entries@) =~= value@->Dict_0);
                                    }
                                    store.insert_key(&self.myid, String::new());
                                    w = Widget::MapHeader {
                                        value_kind: vd.kind().to_owned(),
                                        new_key: String::new(),
                                    };
                                } else {
                                    store.insert_key(&self.myid, k1.clone());
                                    w = Widget::MapHeader {
                                        value_kind: vd.kind().to_owned(),
                                        new_key: k1,
                                    };
                                }
                            },
                            Option::None => {
                                let stored = store.get_desc(&self.myid);
                                let mut d = match stored {
                                    Option::Some(d0) => d0,
                                    Option::None => Desc::Bool,
                                };
                                if let ProbeEvent::EditDesc(nd) = event {
                                    d = nd.clone();
                                }
                                store.insert_desc(&self.myid, d.clone());
                                if let ProbeEvent::ClickAdd = event {
                                    proof {
                                        assert(entries_view(entries@) =~= old(value)@->Dict_0);
                                    }
                                    map_insert(entries, k1, d.default_value());
                                    proof {
                                        assert(entries_view(entries@) =~= value@->Dict_0);
                                    }
                                    store.insert_key(&self.myid, String::new());
                                    self.mydesc = d;
                                    w = Widget::MapHeaderInfer {
                                        desc: self.mydesc.clone(),
                                        new_key: String::new(),
                                    };
                                } else {
                                    store.insert_key(&self.myid, k1.clone());
                                    self.mydesc = d;
                                    w = Widget::MapHeaderInfer {
                                        desc: self.mydesc.clone(),
                                        new_key: k1,
                                    };
                                }
                            },
                        }
                    },
                    _ => {
                        let msg = mismatch_message("map", value.kind());
                        let btn = "Reset to empty map".to_owned();
                        if let ProbeEvent::ClickFix = event {
                            *value = Value::Dict(Vec::new());
                            proof {
                                assert(value@->Dict_0 =~= Seq::<(Seq<char>, ValueV)>::empty());
                            }
                        }
                        w = Widget::Mismatch { message: msg, button: btn };
                    },
                }
            },
        }
        w
    }
}

/// Range safety: the value stored by an edit through the range-aware
/// integer editor is the clamp of the input, which lies inside
/// `[min, max]` whenever the bounds are ordered — independently of
/// what was stored before.  So after any sequence of edits the stored
/// value stays within the range.
pub proof fn lemma_edit_int_in_range(x: int, min: Option<i64>, max: Option<i64>)
    requires
        !int_range_invalid(min, max),
    ensures
        min matches Option::Some(m) ==> m <= clamp_int(x, min, max),
        max matches Option::Some(m) ==> clamp_int(x, min, max) <= m,
{
}

/// Numeric mismatch conversions settle in one step: the integer a
/// float converts to is already clamped, so converting it again
/// changes nothing, and the converted value matches its schema; a
/// float value matches a float schema whatever its bits.  Probing a
/// matching pair without interaction leaves the value untouched (see
/// [`ValueProbe::probe`]), so no further coercion happens after the
/// click.
pub proof fn lemma_convert_idempotent(
    t: i64,
    min: Option<i64>,
    max: Option<i64>,
    fmin: Option<u64>,
    fmax: Option<u64>,
    bits: u64,
)
    requires
        !int_range_invalid(min, max),
    ensures
        clamp_int(clamp_int(t as int, min, max), min, max) == clamp_int(t as int, min, max),
        matches_desc(DescV::Int { min, max }, ValueV::Int(clamp_int(t as int, min, max) as i64)),
        matches_desc(DescV::Float { min: fmin, max: fmax }, ValueV::Float(bits)),
{
}

} // verus!

