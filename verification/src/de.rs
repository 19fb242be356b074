//! The decoding engine.
//!
//! A decode walks the grouped config with an explicit stack of frames
//! rather than native recursion: the top frame always says what read is
//! legal next, and illegal reads are decode errors, never panics. Frames
//! are pushed when descending into a key's values or a nested object, and
//! popped when that subtree is consumed; sibling iteration reuses the top
//! slot so the stack's depth follows the tree's depth, not its breadth.

use vstd::prelude::*;

use crate::de_error::DeError;
use crate::de_error::Error;
use crate::deconfig::DeConfig;
use crate::deconfig::DeConfigView;
use crate::deconfig::EntryView;
use crate::deconfig::GroupedEntry;
use crate::deconfig::clone_entries;
use crate::deconfig::clone_entry;
use crate::deconfig::clone_nodes;
use crate::deconfig::clone_string;
use crate::deconfig::entries_view;
use crate::deconfig::entry_view;
use crate::deconfig::from_config;
use crate::deconfig::group_view;
use crate::deconfig::node_view;
use crate::deconfig::nodes_view;
use crate::oconfig::ConfigItem;
use crate::oconfig::Number;
use crate::oconfig::items_view;

verus! {

broadcast use {
    vstd::seq::group_seq_axioms,
    vstd::slice::group_slice_axioms,
    vstd::std_specs::vec::group_vec_axioms,
};

/// The result every decode API returns.
pub type DeResult<T> = Result<T, Error>;

/// One frame of the traversal stack.
#[derive(Debug)]
pub enum Frame {
    /// Iterating the fields of an object: its entries and the cursor.
    Struct(Vec<GroupedEntry>, usize),
    /// The values grouped under one key, awaiting a scalar, sequence or
    /// nested decode.
    Item(String, Vec<DeConfig>),
    /// Iterating the elements of a sequence: the nodes and the cursor.
    Elements(Vec<DeConfig>, usize),
}

/// Mathematical image of a [`Frame`].
#[verifier::ext_equal]
pub enum FrameView {
    Struct(Seq<EntryView>, int),
    Item(Seq<char>, Seq<DeConfigView>),
    Elements(Seq<DeConfigView>, int),
}

/// Mathematical image of one frame.
pub open spec fn frame_view(f: Frame) -> FrameView {
    match f {
        Frame::Struct(entries, pos) => FrameView::Struct(entries_view(entries@), pos as int),
        Frame::Item(key, nodes) => FrameView::Item(key@, nodes_view(nodes@)),
        Frame::Elements(nodes, pos) => FrameView::Elements(nodes_view(nodes@), pos as int),
    }
}

/// Mathematical image of a frame stack, element by element.
pub open spec fn frames_view(s: Seq<Frame>) -> Seq<FrameView> {
    Seq::new(
        s.len(),
        |i: int|
            if 0 <= i < s.len() {
                frame_view(s[i])
            } else {
                FrameView::Struct(Seq::empty(), 0)
            },
    )
}

impl View for Frame {
    type V = FrameView;

    open spec fn view(&self) -> FrameView {
        frame_view(*self)
    }
}

/// Keeps track of where a decode stands in the grouped tree.
pub struct Deserializer {
    depth: Vec<Frame>,
}

impl View for Deserializer {
    type V = Seq<FrameView>;

    closed spec fn view(&self) -> Seq<FrameView> {
        frames_view(self.depth@)
    }
}

/// The node a single-scalar read addresses, when the top frame offers one:
/// an item frame's lone node, or the element a sequence frame's cursor is
/// on.
pub open spec fn current_node(s: Seq<FrameView>) -> Option<DeConfigView> {
    if s.len() == 0 {
        None
    } else {
        match s.last() {
            FrameView::Item(_, nodes) => if nodes.len() == 1 {
                Some(nodes[0])
            } else {
                None
            },
            FrameView::Elements(nodes, pos) => if 0 <= pos < nodes.len() {
                Some(nodes[pos])
            } else {
                None
            },
            FrameView::Struct(_, _) => None,
        }
    }
}

/// Which failure a single-scalar read reports when no node is on offer.
pub open spec fn current_node_err(s: Seq<FrameView>) -> DeError {
    if s.len() == 0 {
        DeError::NoMoreValuesLeft
    } else {
        match s.last() {
            FrameView::Item(_, nodes) => DeError::ExpectSingleValue,
            FrameView::Elements(nodes, pos) => DeError::NoMoreValuesLeft,
            FrameView::Struct(_, _) => DeError::ExpectSingleValue,
        }
    }
}

/// What the stack looks like after a pop: one frame shorter, or untouched
/// when it was already empty.
pub open spec fn pop_effect(s: Seq<FrameView>) -> Seq<FrameView> {
    if s.len() == 0 {
        s
    } else {
        s.drop_last()
    }
}

/// What the stack looks like after `push(pos)`: the parent struct frame's
/// entry at `pos` becomes an item frame, pushed for the first field and
/// overwriting the top slot for later ones. A stack that offers no such
/// parent or no such entry is left as it is.
pub open spec fn push_effect(s: Seq<FrameView>, pos: int) -> Seq<FrameView> {
    let back = if pos == 0 {
        1int
    } else {
        2int
    };
    if s.len() < back {
        s
    } else {
        match s[s.len() - back] {
            FrameView::Struct(entries, _) => {
                if 0 <= pos < entries.len() {
                    let f = FrameView::Item(entries[pos].key, entries[pos].nodes);
                    if pos == 0 {
                        s.push(f)
                    } else {
                        s.update(s.len() - 1, f)
                    }
                } else {
                    s
                }
            },
            _ => s,
        }
    }
}

/// What the stack looks like after `push_seq(pos)`: the parent item
/// frame's nodes become a sequence frame with its cursor at `pos`, pushed
/// for the first element and overwriting the top slot for later ones.
pub open spec fn push_seq_effect(s: Seq<FrameView>, pos: int) -> Seq<FrameView> {
    let back = if pos == 0 {
        1int
    } else {
        2int
    };
    if s.len() < back {
        s
    } else {
        match s[s.len() - back] {
            FrameView::Item(_, nodes) => {
                let f = FrameView::Elements(nodes, pos);
                if pos == 0 {
                    s.push(f)
                } else {
                    s.update(s.len() - 1, f)
                }
            },
            _ => s,
        }
    }
}

impl Deserializer {
    /// Seeds a traversal stack with one struct frame over the grouped root
    /// entries.
    pub fn from_collectd(input: Vec<GroupedEntry>) -> (r: Deserializer)
        ensures
            r@ =~= seq![FrameView::Struct(entries_view(input@), 0int)],
    {
        let mut depth: Vec<Frame> = Vec::new();
        depth.push(Frame::Struct(input, 0));
        Deserializer { depth }
    }

    /// The top frame, or the stack-exhausted failure.
    pub fn current(&self) -> (r: Result<&Frame, Error>)
        ensures
            match r {
                Ok(f) => self@.len() > 0 && f@ == self@.last(),
                Err(e) => self@.len() == 0 && e == Error(DeError::NoMoreValuesLeft),
            },
    {
        let n = self.depth.len();
        if n == 0 {
            return Err(Error(DeError::NoMoreValuesLeft));
        }
        Ok(&self.depth[n - 1])
    }

    /// The node a single-scalar read addresses, or the exact failure:
    /// `ExpectSingleValue` when the key carries zero or several values (or
    /// the top frame is struct-shaped), `NoMoreValuesLeft` when the stack
    /// is exhausted.
    pub fn grab_val(&self) -> (r: Result<&DeConfig, Error>)
        ensures
            match r {
                Ok(v) => current_node(self@) == Some(node_view(*v)),
                Err(e) => current_node(self@) is None && e == Error(current_node_err(self@)),
            },
    {
        let n = self.depth.len();
        if n == 0 {
            return Err(Error(DeError::NoMoreValuesLeft));
        }
        match &self.depth[n - 1] {
            Frame::Item(_, values) => {
                if values.len() != 1 {
                    Err(Error(DeError::ExpectSingleValue))
                } else {
                    Ok(&values[0])
                }
            },
            Frame::Elements(items, pos) => {
                if *pos < items.len() {
                    Ok(&items[*pos])
                } else {
                    Err(Error(DeError::NoMoreValuesLeft))
                }
            },
            Frame::Struct(_, _) => Err(Error(DeError::ExpectSingleValue)),
        }
    }

    /// The current node's text, or `ExpectString` when it is no text node.
    pub fn grab_string(&self) -> (r: Result<&str, Error>)
        ensures
            match r {
                Ok(s) => current_node(self@) matches Some(n) && n matches DeConfigView::Text(t)
                    && s@ == t,
                Err(e) => match current_node(self@) {
                    Some(n) => !(n is Text) && e == Error(DeError::ExpectString),
                    None => e == Error(current_node_err(self@)),
                },
            },
    {
        match self.grab_val() {
            Err(e) => Err(e),
            Ok(v) => match v {
                DeConfig::Text(s) => Ok(s.as_str()),
                _ => Err(Error(DeError::ExpectString)),
            },
        }
    }

    /// The current node's boolean, or `ExpectBoolean` when it is none.
    pub fn grab_bool(&self) -> (r: Result<bool, Error>)
        ensures
            match r {
                Ok(b) => current_node(self@) == Some(DeConfigView::Boolean(b)),
                Err(e) => match current_node(self@) {
                    Some(n) => !(n is Boolean) && e == Error(DeError::ExpectBoolean),
                    None => e == Error(current_node_err(self@)),
                },
            },
    {
        match self.grab_val() {
            Err(e) => Err(e),
            Ok(v) => match v {
                DeConfig::Boolean(b) => Ok(*b),
                _ => Err(Error(DeError::ExpectBoolean)),
            },
        }
    }

    /// The current node's number, or `ExpectNumber` when it is none.
    pub fn grab_number(&self) -> (r: Result<Number, Error>)
        ensures
            match r {
                Ok(x) => current_node(self@) == Some(DeConfigView::Number(x)),
                Err(e) => match current_node(self@) {
                    Some(n) => !(n is Number) && e == Error(DeError::ExpectNumber),
                    None => e == Error(current_node_err(self@)),
                },
            },
    {
        match self.grab_val() {
            Err(e) => Err(e),
            Ok(v) => match v {
                DeConfig::Number(x) => Ok(*x),
                _ => Err(Error(DeError::ExpectNumber)),
            },
        }
    }

    /// Discards the top frame; a no-op on an exhausted stack.
    pub fn pop(&mut self)
        ensures
            final(self)@ == pop_effect(old(self)@),
    {
        let ghost prev = self.depth@;
        let _ = self.depth.pop();
        proof {
            if prev.len() > 0 {
                assert(frames_view(prev.subrange(0, prev.len() - 1)) =~= frames_view(
                    prev,
                ).drop_last());
            } else {
                assert(frames_view(self.depth@) =~= pop_effect(frames_view(prev)));
            }
        }
    }

    /// Turns the parent struct frame's entry at `pos` into the item frame
    /// under work: pushed for the first field, overwriting the top slot for
    /// the ones after, so the parent stays two levels below.
    pub fn push(&mut self, pos: usize)
        ensures
            final(self)@ == push_effect(old(self)@, pos as int),
    {
        let ghost s0 = frames_view(self.depth@);
        let back: usize = if pos == 0 {
            1
        } else {
            2
        };
        if self.depth.len() < back {
            return ;
        }
        let end = self.depth.len() - back;
        let picked: Option<GroupedEntry> = match &self.depth[end] {
            Frame::Struct(entries, _) => {
                if pos < entries.len() {
                    Some(clone_entry(&entries[pos]))
                } else {
                    None
                }
            },
            _ => None,
        };
        match picked {
            None => {
                proof {
                    assert(frames_view(self.depth@) =~= push_effect(s0, pos as int));
                }
            },
            Some(entry) => {
                let ghost ev = entry_view(entry);
                let f = Frame::Item(entry.key, entry.nodes);
                proof {
                    assert(frame_view(f) == FrameView::Item(ev.key, ev.nodes));
                }
                if pos == 0 {
                    let ghost prev = self.depth@;
                    self.depth.push(f);
                    proof {
                        assert(frames_view(prev.push(f)) =~= frames_view(prev).push(frame_view(f)));
                        assert(frames_view(self.depth@) =~= push_effect(s0, pos as int));
                    }
                } else {
                    let ghost prev = self.depth@;
                    let _ = self.depth.pop();
                    self.depth.push(f);
                    proof {
                        assert(self.depth@ =~= prev.update(prev.len() - 1, f));
                        assert(frames_view(prev.update(prev.len() - 1, f)) =~= frames_view(
                            prev,
                        ).update(prev.len() - 1, frame_view(f)));
                        assert(frames_view(self.depth@) =~= push_effect(s0, pos as int));
                    }
                }
            },
        }
    }

    /// Turns the parent item frame's nodes into the sequence frame under
    /// work, its cursor at `pos`: pushed for the first element, overwriting
    /// the top slot for the ones after.
    pub fn push_seq(&mut self, pos: usize)
        ensures
            final(self)@ == push_seq_effect(old(self)@, pos as int),
    {
        let ghost s0 = frames_view(self.depth@);
        let back: usize = if pos == 0 {
            1
        } else {
            2
        };
        if self.depth.len() < back {
            return ;
        }
        let end = self.depth.len() - back;
        let picked: Option<Vec<DeConfig>> = match &self.depth[end] {
            Frame::Item(_, nodes) => Some(clone_nodes(nodes)),
            _ => None,
        };
        match picked {
            None => {
                proof {
                    assert(frames_view(self.depth@) =~= push_seq_effect(s0, pos as int));
                }
            },
            Some(nodes) => {
                let f = Frame::Elements(nodes, pos);
                if pos == 0 {
                    let ghost prev = self.depth@;
                    self.depth.push(f);
                    proof {
                        assert(frames_view(prev.push(f)) =~= frames_view(prev).push(frame_view(f)));
                        assert(frames_view(self.depth@) =~= push_seq_effect(s0, pos as int));
                    }
                } else {
                    let ghost prev = self.depth@;
                    let _ = self.depth.pop();
                    self.depth.push(f);
                    proof {
                        assert(self.depth@ =~= prev.update(prev.len() - 1, f));
                        assert(frames_view(prev.update(prev.len() - 1, f)) =~= frames_view(
                            prev,
                        ).update(prev.len() - 1, frame_view(f)));
                        assert(frames_view(self.depth@) =~= push_seq_effect(s0, pos as int));
                    }
                }
            },
        }
    }
}


/// What an identifier read yields: an item frame's key; the string a
/// sequence frame's first element holds, when the cursor is on it (the
/// unit-variant special case); otherwise `ExpectStruct`, or
/// `NoMoreValuesLeft` on an exhausted stack.
pub open spec fn identifier_of(s: Seq<FrameView>) -> Result<Seq<char>, DeError> {
    if s.len() == 0 {
        Err(DeError::NoMoreValuesLeft)
    } else {
        match s.last() {
            FrameView::Item(key, _) => Ok(key),
            FrameView::Elements(nodes, pos) => if pos == 0 && 0 < nodes.len() {
                match nodes[0] {
                    DeConfigView::Text(t) => Ok(t),
                    _ => Err(DeError::ExpectStruct),
                }
            } else {
                Err(DeError::ExpectStruct)
            },
            FrameView::Struct(_, _) => Err(DeError::ExpectStruct),
        }
    }
}

/// Field iteration over one struct frame: the entry count, the cursor, and
/// whether a frame this iteration pushed still owes a pop.
#[derive(Debug, PartialEq, Eq, Structural, Clone, Copy)]
pub struct FieldSeparated {
    pub item_count: usize,
    pub item_pos: usize,
    pub owes_pop: bool,
}

/// Element iteration over one sequence: the element count and the cursor.
#[derive(Debug, PartialEq, Eq, Structural, Clone, Copy)]
pub struct SeqSeparated {
    pub item_count: usize,
    pub item_pos: usize,
}

/// The generic "decode yourself" capability: target types consume the
/// engine through this protocol. The engine stays agnostic to how a target
/// implements it; verified implementations also say, through [`Decode::decodes`],
/// which engine states yield which values.
pub trait Decode: Sized {
    /// Which values of this type a decode at the given stack may yield.
    /// An implementation that leaves this at its default claims nothing of
    /// its results.
    open spec fn decodes(stack: Seq<FrameView>, v: Self) -> bool {
        true
    }

    /// Decodes one value at the engine's current position. A successful
    /// decode puts the stack back exactly as it found it.
    fn decode(de: &mut Deserializer) -> (r: Result<Self, Error>)
        ensures
            r matches Ok(v) ==> final(de)@ == old(de)@ && Self::decodes(old(de)@, v),
    ;
}

impl Deserializer {
    /// Reads an identifier, as [`identifier_of`] describes.
    pub fn deserialize_identifier(&self) -> (r: Result<String, Error>)
        ensures
            match r {
                Ok(x) => identifier_of(self@) matches Ok(t) && t == x@,
                Err(e) => identifier_of(self@) matches Err(k) && e == Error(k),
            },
    {
        let n = self.depth.len();
        if n == 0 {
            return Err(Error(DeError::NoMoreValuesLeft));
        }
        match &self.depth[n - 1] {
            Frame::Item(key, _) => Ok(clone_string(key)),
            Frame::Elements(nodes, pos) => {
                if *pos == 0 && 0 < nodes.len() {
                    match &nodes[0] {
                        DeConfig::Text(t) => Ok(clone_string(t)),
                        _ => Err(Error(DeError::ExpectStruct)),
                    }
                } else {
                    Err(Error(DeError::ExpectStruct))
                }
            },
            Frame::Struct(_, _) => Err(Error(DeError::ExpectStruct)),
        }
    }

    /// Coerces the current node to a single character: the node must be
    /// text exactly one character long; other text fails with `ExpectChar`
    /// carrying it, and a non-text node with `ExpectString`.
    pub fn deserialize_char(&self) -> (r: Result<char, Error>)
        ensures
            match r {
                Ok(c) => current_node(self@) matches Some(n) && (n matches DeConfigView::Text(t)
                    && t.len() == 1 && c == t[0]),
                Err(e) => match current_node(self@) {
                    Some(n) => match n {
                        DeConfigView::Text(t) => t.len() != 1 && (e.0 matches DeError::ExpectChar(
                            s,
                        ) && s@ == t),
                        _ => e == Error(DeError::ExpectString),
                    },
                    None => e == Error(current_node_err(self@)),
                },
            },
    {
        match self.grab_string() {
            Err(e) => Err(e),
            Ok(s) => {
                if s.unicode_len() != 1 {
                    Err(Error(DeError::ExpectChar(s.to_owned())))
                } else {
                    Ok(s.get_char(0))
                }
            },
        }
    }

    /// Refuses a self-describing decode: the format carries no type tags
    /// beyond number, boolean and string.
    pub fn deserialize_any(&self) -> (r: Result<(), Error>)
        ensures
            r == Err::<(), Error>(Error(DeError::DataTypeNotSupported)),
    {
        Err(Error(DeError::DataTypeNotSupported))
    }

    /// Starts sequence iteration: the top frame must be an item frame, and
    /// its node count becomes the sequence length.
    pub fn deserialize_seq(&self) -> (r: Result<SeqSeparated, Error>)
        ensures
            match r {
                Ok(sep) => self@.len() > 0 && (self@.last() matches FrameView::Item(_, nodes)
                    && sep.item_count == nodes.len() && sep.item_pos == 0),
                Err(e) => {
                    if self@.len() == 0 {
                        e == Error(DeError::NoMoreValuesLeft)
                    } else {
                        !(self@.last() is Item) && (e.0 matches DeError::SerdeError(m) && m@
                            == "expected an item when deserializing seq"@)
                    }
                },
            },
    {
        let n = self.depth.len();
        if n == 0 {
            return Err(Error(DeError::NoMoreValuesLeft));
        }
        match &self.depth[n - 1] {
            Frame::Item(_, nodes) => Ok(
                SeqSeparated { item_count: nodes.len(), item_pos: 0 },
            ),
            _ => Err(
                Error::custom(String::from_str("expected an item when deserializing seq")),
            ),
        }
    }

    /// Starts field iteration. On the root struct frame the entry count is
    /// read off; on a sequence frame whose cursor is on an object, that
    /// object's entries are pushed as a fresh struct frame which the
    /// iteration owes a pop for; a non-object element is `ExpectObject`;
    /// an item frame yields an iteration over nothing.
    pub fn deserialize_struct(&mut self) -> (r: Result<FieldSeparated, Error>)
        ensures
            match r {
                Ok(fs) => fs.item_pos == 0 && old(self)@.len() > 0 && match old(self)@.last() {
                    FrameView::Struct(entries, _) => fs.item_count == entries.len() && !fs.owes_pop
                        && final(self)@ == old(self)@,
                    FrameView::Item(_, _) => fs.item_count == 0 && !fs.owes_pop && final(self)@
                        == old(self)@,
                    FrameView::Elements(nodes, pos) => 0 <= pos < nodes.len() && match nodes[pos] {
                        DeConfigView::Object(obj) => fs.item_count == obj.len() && fs.owes_pop
                            && final(self)@ == old(self)@.push(FrameView::Struct(obj, 0)),
                        _ => false,
                    },
                },
                Err(e) => final(self)@ == old(self)@ && {
                    if old(self)@.len() == 0 {
                        e == Error(DeError::NoMoreValuesLeft)
                    } else {
                        match old(self)@.last() {
                            FrameView::Elements(nodes, pos) => {
                                if 0 <= pos < nodes.len() {
                                    !(nodes[pos] is Object) && e == Error(DeError::ExpectObject)
                                } else {
                                    e == Error(DeError::NoMoreValuesLeft)
                                }
                            },
                            _ => false,
                        }
                    }
                },
            },
    {
        let n = self.depth.len();
        if n == 0 {
            return Err(Error(DeError::NoMoreValuesLeft));
        }
        let picked: Result<FieldSeparated, Error> = match &self.depth[n - 1] {
            Frame::Struct(entries, _) => Ok(
                FieldSeparated { item_count: entries.len(), item_pos: 0, owes_pop: false },
            ),
            Frame::Item(_, _) => Ok(
                FieldSeparated { item_count: 0, item_pos: 0, owes_pop: false },
            ),
            Frame::Elements(nodes, pos) => {
                if *pos < nodes.len() {
                    match &nodes[*pos] {
                        DeConfig::Object(obj) => Ok(
                            FieldSeparated {
                                item_count: obj.len(),
                                item_pos: 0,
                                owes_pop: true,
                            },
                        ),
                        _ => Err(Error(DeError::ExpectObject)),
                    }
                } else {
                    Err(Error(DeError::NoMoreValuesLeft))
                }
            },
        };
        match picked {
            Err(e) => Err(e),
            Ok(fs) => {
                if fs.owes_pop {
                    // Descend into the object under the sequence cursor.
                    let pushed: Option<Vec<GroupedEntry>> = match &self.depth[n - 1] {
                        Frame::Elements(nodes, pos) => match &nodes[*pos] {
                            DeConfig::Object(obj) => Some(clone_entries(obj)),
                            _ => None,
                        },
                        _ => None,
                    };
                    match pushed {
                        Some(obj) => {
                            let ghost prev = self.depth@;
                            let f = Frame::Struct(obj, 0);
                            self.depth.push(f);
                            proof {
                                assert(frames_view(prev.push(f)) =~= frames_view(prev).push(
                                    frame_view(f),
                                ));
                            }
                            Ok(fs)
                        },
                        None => Err(Error(DeError::ExpectObject)),  // cannot happen
                    }
                } else {
                    Ok(fs)
                }
            },
        }
    }

    /// Starts a unit-variant decode: the top frame must be an item frame
    /// with exactly one node, over which a one-element sequence frame is
    /// pushed, so that the variant name can be read as an identifier. The
    /// caller pops that frame when the variant is consumed.
    pub fn deserialize_enum(&mut self) -> (r: Result<(), Error>)
        ensures
            match r {
                Ok(_) => old(self)@.len() > 0 && (old(self)@.last() matches FrameView::Item(
                    _,
                    nodes,
                ) && nodes.len() == 1 && final(self)@ == old(self)@.push(
                    FrameView::Elements(nodes, 0),
                )),
                Err(e) => final(self)@ == old(self)@ && {
                    if old(self)@.len() == 0 {
                        e == Error(DeError::NoMoreValuesLeft)
                    } else {
                        match old(self)@.last() {
                            FrameView::Item(_, nodes) => nodes.len() != 1 && (e.0 matches
                                DeError::SerdeError(m) && m@
                                == "expected enum item to have a single item list"@),
                            _ => e == Error(DeError::ExpectStruct),
                        }
                    }
                },
            },
    {
        let n = self.depth.len();
        if n == 0 {
            return Err(Error(DeError::NoMoreValuesLeft));
        }
        let node_count: Option<usize> = match &self.depth[n - 1] {
            Frame::Item(_, nodes) => Some(nodes.len()),
            _ => None,
        };
        match node_count {
            None => Err(Error(DeError::ExpectStruct)),
            Some(count) => {
                if count != 1 {
                    Err(
                        Error::custom(
                            String::from_str("expected enum item to have a single item list"),
                        ),
                    )
                } else {
                    let ghost s0 = self@;
                    self.push_seq(0);
                    proof {
                        assert(final(self)@ =~= s0.push(
                            FrameView::Elements(s0.last()->Item_1, 0int),
                        ));
                    }
                    Ok(())
                }
            },
        }
    }
}

impl FieldSeparated {
    /// Yields the next field's key, turning its entry into the item frame
    /// under work; reports completion — popping the last item frame — when
    /// every entry was visited. Advancing never inspects the field's value,
    /// so a caller may ignore any field and iteration stays on course.
    pub fn next_key(&mut self, de: &mut Deserializer) -> (r: Result<Option<String>, Error>)
        ensures
            old(self).item_pos >= old(self).item_count ==> r == Ok::<Option<String>, Error>(None)
                && *final(self) == *old(self) && final(de)@ == (if old(self).item_count != 0 {
                pop_effect(old(de)@)
            } else {
                old(de)@
            }),
            old(self).item_pos < old(self).item_count ==> {
                let s1 = push_effect(old(de)@, old(self).item_pos as int);
                final(self).item_count == old(self).item_count && final(self).owes_pop == old(
                    self,
                ).owes_pop && final(self).item_pos == old(self).item_pos + 1 && final(de)@ == s1
                    && match r {
                    Ok(Some(x)) => identifier_of(s1) matches Ok(t) && t == x@,
                    Ok(None) => false,
                    Err(e) => identifier_of(s1) matches Err(k) && e == Error(k),
                }
            },
    {
        if self.item_pos >= self.item_count {
            if self.item_count != 0 {
                de.pop();
            }
            return Ok(None);
        }
        de.push(self.item_pos);
        self.item_pos = self.item_pos + 1;
        match de.deserialize_identifier() {
            Ok(x) => Ok(Some(x)),
            Err(e) => Err(e),
        }
    }

    /// Ends the iteration: pops the struct frame this iteration pushed,
    /// when it pushed one.
    pub fn finish(self, de: &mut Deserializer)
        ensures
            final(de)@ == (if self.owes_pop {
                pop_effect(old(de)@)
            } else {
                old(de)@
            }),
    {
        if self.owes_pop {
            de.pop();
        }
    }
}

impl SeqSeparated {
    /// Decodes the next element, advancing the sequence frame's cursor over
    /// the parent item frame's nodes; reports exhaustion — popping the
    /// sequence frame — when every node was consumed.
    pub fn next_element<T: Decode>(&mut self, de: &mut Deserializer) -> (r: Result<
        Option<T>,
        Error,
    >)
        ensures
            old(self).item_pos >= old(self).item_count ==> (r matches Ok(o) && o is None)
                && *final(self) == *old(self) && final(de)@ == (if old(self).item_count != 0 {
                pop_effect(old(de)@)
            } else {
                old(de)@
            }),
            old(self).item_pos < old(self).item_count ==> {
                let s1 = push_seq_effect(old(de)@, old(self).item_pos as int);
                final(self).item_count == old(self).item_count && final(self).item_pos == old(
                    self,
                ).item_pos + 1 && match r {
                    Ok(Some(v)) => final(de)@ == s1 && T::decodes(s1, v),
                    Ok(None) => false,
                    Err(_) => true,
                }
            },
    {
        if self.item_pos >= self.item_count {
            if self.item_count != 0 {
                de.pop();
            }
            return Ok(None);
        }
        de.push_seq(self.item_pos);
        self.item_pos = self.item_pos + 1;
        match T::decode(de) {
            Ok(v) => Ok(Some(v)),
            Err(e) => Err(e),
        }
    }
}

/// Decodes a whole config: groups the raw directives, seeds the stack with
/// one struct frame over them, and hands control to the target type.
pub fn from_collectd<T: Decode>(items: &[ConfigItem]) -> (r: Result<T, Error>)
    ensures
        r matches Ok(v) ==> T::decodes(
            seq![FrameView::Struct(group_view(items_view(items@)), 0int)],
            v,
        ),
{
    let props = from_config(items);
    let mut de = Deserializer::from_collectd(props);
    T::decode(&mut de)
}


/// `v` forced into `[lo, hi]`: the value itself when it fits, the nearer
/// bound otherwise. This is the saturating narrowing the numeric payload
/// carries into each integer width.
pub open spec fn clamp(v: int, lo: int, hi: int) -> int {
    if v < lo {
        lo
    } else if v > hi {
        hi
    } else {
        v
    }
}

impl Decode for bool {
    open spec fn decodes(stack: Seq<FrameView>, v: Self) -> bool {
        current_node(stack) == Some(DeConfigView::Boolean(v))
    }

    fn decode(de: &mut Deserializer) -> (r: Result<Self, Error>) {
        de.grab_bool()
    }
}

impl Decode for String {
    open spec fn decodes(stack: Seq<FrameView>, v: Self) -> bool {
        current_node(stack) matches Some(n) && n == DeConfigView::Text(v@)
    }

    fn decode(de: &mut Deserializer) -> (r: Result<Self, Error>) {
        match de.grab_string() {
            Ok(s) => Ok(s.to_owned()),
            Err(e) => Err(e),
        }
    }
}

impl Decode for char {
    open spec fn decodes(stack: Seq<FrameView>, v: Self) -> bool {
        current_node(stack) matches Some(n) && (n matches DeConfigView::Text(t) && t.len() == 1
            && v == t[0])
    }

    fn decode(de: &mut Deserializer) -> (r: Result<Self, Error>) {
        de.deserialize_char()
    }
}

impl Decode for Number {
    open spec fn decodes(stack: Seq<FrameView>, v: Self) -> bool {
        current_node(stack) == Some(DeConfigView::Number(v))
    }

    fn decode(de: &mut Deserializer) -> (r: Result<Self, Error>) {
        de.grab_number()
    }
}

impl Decode for i64 {
    open spec fn decodes(stack: Seq<FrameView>, v: Self) -> bool {
        current_node(stack) matches Some(n) && (n matches DeConfigView::Number(x) && v == x.signed)
    }

    fn decode(de: &mut Deserializer) -> (r: Result<Self, Error>) {
        match de.grab_number() {
            Ok(x) => Ok(x.signed),
            Err(e) => Err(e),
        }
    }
}

impl Decode for i32 {
    open spec fn decodes(stack: Seq<FrameView>, v: Self) -> bool {
        current_node(stack) matches Some(n) && (n matches DeConfigView::Number(x) && v as int
            == clamp(x.signed as int, i32::MIN as int, i32::MAX as int))
    }

    fn decode(de: &mut Deserializer) -> (r: Result<Self, Error>) {
        match de.grab_number() {
            Ok(x) => {
                if x.signed < i32::MIN as i64 {
                    Ok(i32::MIN)
                } else if x.signed > i32::MAX as i64 {
                    Ok(i32::MAX)
                } else {
                    Ok(x.signed as i32)
                }
            },
            Err(e) => Err(e),
        }
    }
}

impl Decode for i16 {
    open spec fn decodes(stack: Seq<FrameView>, v: Self) -> bool {
        current_node(stack) matches Some(n) && (n matches DeConfigView::Number(x) && v as int
            == clamp(x.signed as int, i16::MIN as int, i16::MAX as int))
    }

    fn decode(de: &mut Deserializer) -> (r: Result<Self, Error>) {
        match de.grab_number() {
            Ok(x) => {
                if x.signed < i16::MIN as i64 {
                    Ok(i16::MIN)
                } else if x.signed > i16::MAX as i64 {
                    Ok(i16::MAX)
                } else {
                    Ok(x.signed as i16)
                }
            },
            Err(e) => Err(e),
        }
    }
}

impl Decode for i8 {
    open spec fn decodes(stack: Seq<FrameView>, v: Self) -> bool {
        current_node(stack) matches Some(n) && (n matches DeConfigView::Number(x) && v as int
            == clamp(x.signed as int, i8::MIN as int, i8::MAX as int))
    }

    fn decode(de: &mut Deserializer) -> (r: Result<Self, Error>) {
        match de.grab_number() {
            Ok(x) => {
                if x.signed < i8::MIN as i64 {
                    Ok(i8::MIN)
                } else if x.signed > i8::MAX as i64 {
                    Ok(i8::MAX)
                } else {
                    Ok(x.signed as i8)
                }
            },
            Err(e) => Err(e),
        }
    }
}

impl Decode for u64 {
    open spec fn decodes(stack: Seq<FrameView>, v: Self) -> bool {
        current_node(stack) matches Some(n) && (n matches DeConfigView::Number(x) && v
            == x.unsigned)
    }

    fn decode(de: &mut Deserializer) -> (r: Result<Self, Error>) {
        match de.grab_number() {
            Ok(x) => Ok(x.unsigned),
            Err(e) => Err(e),
        }
    }
}

impl Decode for u32 {
    open spec fn decodes(stack: Seq<FrameView>, v: Self) -> bool {
        current_node(stack) matches Some(n) && (n matches DeConfigView::Number(x) && v as int
            == clamp(x.unsigned as int, 0, u32::MAX as int))
    }

    fn decode(de: &mut Deserializer) -> (r: Result<Self, Error>) {
        match de.grab_number() {
            Ok(x) => {
                if x.unsigned > u32::MAX as u64 {
                    Ok(u32::MAX)
                } else {
                    Ok(x.unsigned as u32)
                }
            },
            Err(e) => Err(e),
        }
    }
}

impl Decode for u16 {
    open spec fn decodes(stack: Seq<FrameView>, v: Self) -> bool {
        current_node(stack) matches Some(n) && (n matches DeConfigView::Number(x) && v as int
            == clamp(x.unsigned as int, 0, u16::MAX as int))
    }

    fn decode(de: &mut Deserializer) -> (r: Result<Self, Error>) {
        match de.grab_number() {
            Ok(x) => {
                if x.unsigned > u16::MAX as u64 {
                    Ok(u16::MAX)
                } else {
                    Ok(x.unsigned as u16)
                }
            },
            Err(e) => Err(e),
        }
    }
}

impl Decode for u8 {
    open spec fn decodes(stack: Seq<FrameView>, v: Self) -> bool {
        current_node(stack) matches Some(n) && (n matches DeConfigView::Number(x) && v as int
            == clamp(x.unsigned as int, 0, u8::MAX as int))
    }

    fn decode(de: &mut Deserializer) -> (r: Result<Self, Error>) {
        match de.grab_number() {
            Ok(x) => {
                if x.unsigned > u8::MAX as u64 {
                    Ok(u8::MAX)
                } else {
                    Ok(x.unsigned as u8)
                }
            },
            Err(e) => Err(e),
        }
    }
}

impl<T: Decode> Decode for Option<T> {
    /// An optional value always delegates to decoding "some": absence is a
    /// key that field iteration never visits, not a marker in the tree.
    open spec fn decodes(stack: Seq<FrameView>, v: Self) -> bool {
        v matches Some(x) && T::decodes(stack, x)
    }

    fn decode(de: &mut Deserializer) -> (r: Result<Self, Error>) {
        match T::decode(de) {
            Ok(v) => Ok(Some(v)),
            Err(e) => Err(e),
        }
    }
}

impl<T: Decode> Decode for Vec<T> {
    /// A sequence decodes from the item frame on top of the stack: one
    /// element per node, in node order, each as if a sequence frame with
    /// its cursor on that node stood above the item frame.
    open spec fn decodes(stack: Seq<FrameView>, v: Self) -> bool {
        stack.len() > 0 && (stack.last() matches FrameView::Item(_, nodes) && v@.len()
            == nodes.len() && forall|i: int|
            0 <= i < nodes.len() ==> T::decodes(
                stack.push(FrameView::Elements(nodes, i)),
                #[trigger] v@[i],
            ))
    }

    fn decode(de: &mut Deserializer) -> (r: Result<Self, Error>) {
        let mut sep = match de.deserialize_seq() {
            Ok(sep) => sep,
            Err(e) => {
                return Err(e);
            },
        };
        let ghost s0 = de@;
        let ghost nodes = s0.last()->Item_1;
        let mut out: Vec<T> = Vec::new();
        loop
            invariant
                s0 == old(de)@,
                s0.len() > 0,
                s0.last() matches FrameView::Item(k, ns) && ns == nodes,
                sep.item_count == nodes.len(),
                sep.item_pos == out@.len(),
                sep.item_pos <= sep.item_count,
                de@ == (if sep.item_pos == 0 {
                    s0
                } else {
                    s0.push(FrameView::Elements(nodes, sep.item_pos - 1))
                }),
                forall|i: int|
                    0 <= i < out@.len() ==> T::decodes(
                        s0.push(FrameView::Elements(nodes, i)),
                        #[trigger] out@[i],
                    ),
            decreases sep.item_count - sep.item_pos,
        {
            let ghost de_before = de@;
            let ghost pos_before = sep.item_pos as int;
            match sep.next_element::<T>(de) {
                Ok(Some(v)) => {
                    proof {
                        assert(push_seq_effect(de_before, pos_before) =~= s0.push(
                            FrameView::Elements(nodes, pos_before),
                        ));
                    }
                    out.push(v);
                },
                Ok(None) => {
                    proof {
                        if sep.item_count != 0 {
                            assert(pop_effect(de_before) =~= s0);
                        }
                        assert(de@ == s0);
                        assert(Self::decodes(s0, out));
                    }
                    return Ok(out);
                },
                Err(e) => {
                    return Err(e);
                },
            }
        }
    }
}


/// The single-vs-many law: when the key under work carries any number of
/// nodes but one, a single-scalar read fails with `ExpectSingleValue`,
/// while a sequence decode of the same key yields exactly one element per
/// node.
pub proof fn lemma_single_vs_many<T: Decode>(
    stack: Seq<FrameView>,
    key: Seq<char>,
    nodes: Seq<DeConfigView>,
    v: Vec<T>,
)
    requires
        stack.len() > 0,
        stack.last() == FrameView::Item(key, nodes),
        nodes.len() != 1,
    ensures
        current_node(stack) is None,
        current_node_err(stack) == DeError::ExpectSingleValue,
        <Vec<T> as Decode>::decodes(stack, v) ==> v@.len() == nodes.len(),
{
}


/// The primitive round-trip law: when the node under work is a number
/// whose truncations both read `k` — every small nonnegative integer
/// payload does — each integer width decodes exactly `k`, and the number
/// itself passes through untouched for the floating-point widths to read
/// back.
pub proof fn lemma_primitive_round_trip(stack: Seq<FrameView>, x: Number, k: int)
    requires
        current_node(stack) == Some(DeConfigView::Number(x)),
        x.signed == k,
        x.unsigned == k,
        0 <= k <= 127,
    ensures
        forall|v: i8| #[trigger] <i8 as Decode>::decodes(stack, v) <==> v == k,
        forall|v: i16| #[trigger] <i16 as Decode>::decodes(stack, v) <==> v == k,
        forall|v: i32| #[trigger] <i32 as Decode>::decodes(stack, v) <==> v == k,
        forall|v: i64| #[trigger] <i64 as Decode>::decodes(stack, v) <==> v == k,
        forall|v: u8| #[trigger] <u8 as Decode>::decodes(stack, v) <==> v == k,
        forall|v: u16| #[trigger] <u16 as Decode>::decodes(stack, v) <==> v == k,
        forall|v: u32| #[trigger] <u32 as Decode>::decodes(stack, v) <==> v == k,
        forall|v: u64| #[trigger] <u64 as Decode>::decodes(stack, v) <==> v == k,
        forall|v: Number| #[trigger] <Number as Decode>::decodes(stack, v) <==> v == x,
{
}

} // verus!
