//! The traversal of a document: one bundle for each container that has been
//! entered and not yet left, the innermost one being read.
use vstd::prelude::*;
use vstd::arithmetic::power2::{lemma2_to64, lemma2_to64_rest, pow2};
use crate::error::{Error, ErrorKind};
use crate::key::is_partition_value;
use crate::sequence::{lemma_reverse_drop_last, reversed};
use crate::trace_key::TraceKey;
use crate::value::{named, Fields, Value};

verus! {

/// A value together with the path at which it was found.
#[derive(Debug, PartialEq)]
pub struct KeyValueSet(pub TraceKey, pub Value);

/// What a bundle hands out: the name of a field, a value, or the notice
/// that the bundle is exhausted and its parent has been taken up again.
#[derive(Debug, PartialEq)]
pub enum BundleElement {
    Key(String),
    Value(KeyValueSet),
    EndOfBundle,
}

/// What a bundle would hand out next, without taking it.
#[derive(Debug, PartialEq)]
pub enum PeekedBundleElement<'a> {
    Key(&'a String),
    Value(&'a Value),
    EndOfBundle,
}

/// One container level as the contracts see it: what is still to be handed
/// out, in order.
///
/// A `Fields` bundle hands out the name of an entry and then, from
/// `poped_value`, its value. An `Array` bundle hands out its values.
pub enum Bundle {
    Fields { key: TraceKey, entries: Seq<(String, Value)>, poped_value: Option<KeyValueSet> },
    Array { key: TraceKey, values: Seq<Value> },
}

/// A traversal as the contracts see it: the bundle being read and, from
/// the outermost to the innermost, the suspended bundles around it.
pub struct State {
    pub processing_bundle: Bundle,
    pub bundle_stack: Seq<Bundle>,
}

impl Bundle {
    /// The path of the container.
    pub open spec fn key(self) -> TraceKey {
        match self {
            Bundle::Fields { key, .. } => key,
            Bundle::Array { key, .. } => key,
        }
    }

    /// What the bundle hands out next, if it is not exhausted.
    pub open spec fn next(self) -> Option<BundleElement> {
        match self {
            Bundle::Fields { key, entries, poped_value } => match poped_value {
                Some(set) => Some(BundleElement::Value(set)),
                None => if entries.len() > 0 {
                    Some(BundleElement::Key(entries[0].0))
                } else {
                    None
                },
            },
            Bundle::Array { key, values } => if values.len() > 0 {
                Some(BundleElement::Value(KeyValueSet(TraceKey::Array(Box::new(key)), values[0])))
            } else {
                None
            },
        }
    }

    /// The bundle after it has handed out `next`.
    pub open spec fn advanced(self) -> Bundle {
        match self {
            Bundle::Fields { key, entries, poped_value } => match poped_value {
                Some(set) => Bundle::Fields { key, entries, poped_value: None },
                None => if entries.len() > 0 {
                    Bundle::Fields {
                        key,
                        entries: entries.drop_first(),
                        poped_value: Some(
                            KeyValueSet(
                                TraceKey::Field(entries[0].0, Box::new(key)),
                                entries[0].1,
                            ),
                        ),
                    }
                } else {
                    self
                },
            },
            Bundle::Array { key, values } => if values.len() > 0 {
                Bundle::Array { key, values: values.drop_first() }
            } else {
                self
            },
        }
    }

    /// Whether the bundle is the one a traversal starts with: at the root,
    /// with nothing to hand out but perhaps the document itself.
    pub open spec fn is_root(self) -> bool {
        &&& self matches Bundle::Fields { key, entries, poped_value }
        &&& key is Root
        &&& entries.len() == 0
        &&& (poped_value matches Some(set) ==> set.0 is Root)
    }

    /// Whether a value that waits to be handed out is keyed as a field of
    /// the container.
    pub open spec fn is_inner(self) -> bool {
        self matches Bundle::Fields { key, entries, poped_value: Some(set) } ==> set.0 is Field
            && set.0.is_child_of(key)
    }
}

impl State {
    /// All the bundles, from the outermost to the one being read.
    pub open spec fn bundles(self) -> Seq<Bundle> {
        self.bundle_stack.push(self.processing_bundle)
    }

    /// What `pop` hands out; `None` where nothing is left at all.
    pub open spec fn next(self) -> Option<BundleElement> {
        match self.processing_bundle.next() {
            Some(element) => Some(element),
            None => if self.bundle_stack.len() > 0 {
                Some(BundleElement::EndOfBundle)
            } else {
                None
            },
        }
    }

    /// The traversal after one `pop`.
    pub open spec fn after_pop(self) -> State {
        if self.processing_bundle.next() is Some {
            State {
                processing_bundle: self.processing_bundle.advanced(),
                bundle_stack: self.bundle_stack,
            }
        } else if self.bundle_stack.len() > 0 {
            State {
                processing_bundle: self.bundle_stack.last(),
                bundle_stack: self.bundle_stack.drop_last(),
            }
        } else {
            self
        }
    }

    /// The traversal after `bundle` has been entered.
    pub open spec fn entered(self, bundle: Bundle) -> State {
        State {
            processing_bundle: bundle,
            bundle_stack: self.bundle_stack.push(self.processing_bundle),
        }
    }

    /// Whether the next thing handed out is a value, or nothing is left.
    pub open spec fn offers_value(self) -> bool {
        self.next() matches Some(element) ==> element is Value
    }

    /// Whether the bundle being read is exhausted.
    pub open spec fn at_end(self) -> bool {
        self.processing_bundle.next() is None
    }

    /// The bundles, read from the outermost to the innermost, spell the
    /// path from the root to the container being read: the outermost is the
    /// root bundle, the one entered from it is at the root too, and every
    /// further one is one step below the one before it.
    pub open spec fn wf(self) -> bool {
        let all = self.bundles();
        &&& all[0].is_root()
        &&& forall|i: int| 1 <= i < all.len() ==> (#[trigger] all[i]).is_inner()
        &&& all.len() > 1 ==> all[1].key() is Root
        &&& forall|i: int|
            2 <= i < all.len() ==> (#[trigger] all[i]).key().is_child_of(all[i - 1].key())
    }

    /// Whether a container found at `key` by a `pop` of `self` may be
    /// entered after that `pop`.
    pub open spec fn admits(self, key: TraceKey) -> bool {
        if self.bundle_stack.len() == 0 {
            key is Root
        } else {
            key.is_child_of(self.processing_bundle.key())
        }
    }
}

/// A `pop` keeps the bundles in line with the path.
pub proof fn lemma_pop_wf(state: State)
    requires
        state.wf(),
    ensures
        state.after_pop().wf(),
        state.next() matches Some(BundleElement::Value(set)) ==> state.after_pop().admits(set.0),
        state.next() is Some && !(state.next() matches Some(BundleElement::EndOfBundle))
            ==> state.after_pop().bundle_stack == state.bundle_stack
            && state.after_pop().processing_bundle.key() == state.processing_bundle.key(),
{
    let all = state.bundles();
    let after = state.after_pop().bundles();
    if state.processing_bundle.next() is Some {
        let last = all.len() - 1;
        assert(after =~= all.update(last, state.processing_bundle.advanced()));
        assert(all[last] == state.processing_bundle);
        assert forall|i: int| 1 <= i < after.len() implies (#[trigger] after[i]).is_inner() by {
            if i < last {
                assert(after[i] == all[i]);
            }
        }
        assert forall|i: int| 2 <= i < after.len() implies (#[trigger] after[i]).key().is_child_of(
            after[i - 1].key(),
        ) by {
            assert(after[i].key() == all[i].key());
            assert(after[i - 1].key() == all[i - 1].key());
        }
        if last >= 1 {
            assert(all[last].is_inner());
        }
    } else if state.bundle_stack.len() > 0 {
        assert(after =~= all.drop_last());
        assert forall|i: int| 1 <= i < after.len() implies (#[trigger] after[i]).is_inner() by {
            assert(after[i] == all[i]);
        }
        assert forall|i: int| 2 <= i < after.len() implies (#[trigger] after[i]).key().is_child_of(
            after[i - 1].key(),
        ) by {
            assert(after[i] == all[i]);
            assert(after[i - 1] == all[i - 1]);
        }
    } else {
        assert(after =~= all);
    }
}

/// Entering a container that was found by the last `pop` keeps the bundles
/// in line with the path.
pub proof fn lemma_enter_wf(state: State, bundle: Bundle)
    requires
        state.wf(),
        state.admits(bundle.key()),
        !(bundle matches Bundle::Fields { poped_value: Some(_), .. }),
    ensures
        state.entered(bundle).wf(),
{
    let all = state.bundles();
    let after = state.entered(bundle).bundles();
    assert(after =~= all.push(bundle));
    assert forall|i: int| 1 <= i < after.len() implies (#[trigger] after[i]).is_inner() by {
        if i < all.len() {
            assert(after[i] == all[i]);
        }
    }
    assert forall|i: int| 2 <= i < after.len() implies (#[trigger] after[i]).key().is_child_of(
        after[i - 1].key(),
    ) by {
        if i < all.len() {
            assert(after[i] == all[i]);
            assert(after[i - 1] == all[i - 1]);
        } else {
            assert(after[i - 1] == state.processing_bundle);
        }
    }
}

struct MapDeserializerBundle {
    key: TraceKey,
    /// The entries still to be handed out, the next one last.
    entries: Vec<(String, Value)>,
    poped_value: Option<KeyValueSet>,
}

struct ArrayDeserializerBundle {
    key: TraceKey,
    /// The values still to be handed out, the next one last.
    values: Vec<Value>,
}

enum DeserializerBundle {
    Fields(MapDeserializerBundle),
    Array(ArrayDeserializerBundle),
}

impl View for DeserializerBundle {
    type V = Bundle;

    closed spec fn view(&self) -> Bundle {
        match self {
            DeserializerBundle::Fields(bundle) => Bundle::Fields {
                key: bundle.key,
                entries: bundle.entries@.reverse(),
                poped_value: bundle.poped_value,
            },
            DeserializerBundle::Array(bundle) => Bundle::Array {
                key: bundle.key,
                values: bundle.values@.reverse(),
            },
        }
    }
}

impl DeserializerBundle {
    /// A bundle over the entries of a mapping found at `key`.
    fn map(key: &TraceKey, input: Fields) -> (bundle: Self)
        ensures
            bundle@ == (Bundle::Fields { key: *key, entries: input.entries(), poped_value: None }),
    {
        DeserializerBundle::Fields(
            MapDeserializerBundle {
                key: key.clone(),
                entries: reversed(input.into_entries()),
                poped_value: None,
            },
        )
    }

    /// A bundle over the values of an array found at `key`.
    fn array(key: &TraceKey, input: Vec<Value>) -> (bundle: Self)
        ensures
            bundle@ == (Bundle::Array { key: *key, values: input@ }),
    {
        DeserializerBundle::Array(
            ArrayDeserializerBundle { key: key.clone(), values: reversed(input) },
        )
    }

    /// Takes the next element out of the bundle, if it has one left.
    fn take_next(&mut self) -> (next: Option<BundleElement>)
        ensures
            next == old(self)@.next(),
            final(self)@ == old(self)@.advanced(),
    {
        match self {
            DeserializerBundle::Fields(bundle) => {
                match bundle.poped_value.take() {
                    Some(value) => Some(BundleElement::Value(value)),
                    None => {
                        let ghost before = bundle.entries@;
                        match bundle.entries.pop() {
                            None => {
                                assert(before.reverse() =~= Seq::<(String, Value)>::empty());
                                None
                            },
                            Some(entry) => {
                                proof {
                                    lemma_reverse_drop_last(before);
                                }
                                bundle.poped_value = Some(
                                    KeyValueSet(bundle.key.field(&entry.0), entry.1),
                                );
                                Some(BundleElement::Key(entry.0))
                            },
                        }
                    },
                }
            },
            DeserializerBundle::Array(bundle) => {
                let ghost before = bundle.values@;
                match bundle.values.pop() {
                    None => {
                        assert(before.reverse() =~= Seq::<Value>::empty());
                        None
                    },
                    Some(value) => {
                        proof {
                            lemma_reverse_drop_last(before);
                        }
                        Some(BundleElement::Value(KeyValueSet(bundle.key.element(), value)))
                    },
                }
            },
        }
    }

    /// Looks at the next element of the bundle, if it has one left.
    fn peek_next(&self) -> (next: Option<PeekedBundleElement<'_>>)
        ensures
            match self@.next() {
                Some(BundleElement::Key(name)) => next == Some(PeekedBundleElement::Key(&name)),
                Some(BundleElement::Value(set)) => next == Some(
                    PeekedBundleElement::Value(&set.1),
                ),
                _ => next is None,
            },
    {
        match self {
            DeserializerBundle::Fields(bundle) => match &bundle.poped_value {
                Some(set) => Some(PeekedBundleElement::Value(&set.1)),
                None => {
                    let n = bundle.entries.len();
                    if n > 0 {
                        proof {
                            lemma_reverse_drop_last(bundle.entries@);
                        }
                        Some(PeekedBundleElement::Key(&bundle.entries[n - 1].0))
                    } else {
                        assert(bundle.entries@.reverse() =~= Seq::<(String, Value)>::empty());
                        None
                    }
                },
            },
            DeserializerBundle::Array(bundle) => {
                let n = bundle.values.len();
                if n > 0 {
                    proof {
                        lemma_reverse_drop_last(bundle.values@);
                    }
                    Some(PeekedBundleElement::Value(&bundle.values[n - 1]))
                } else {
                    assert(bundle.values@.reverse() =~= Seq::<Value>::empty());
                    None
                }
            },
        }
    }

    /// The bundle a traversal starts with: nothing in it but the document,
    /// waiting to be handed out as one mapping at the root.
    fn root(input: Fields) -> (bundle: Self)
        ensures
            bundle@ == (Bundle::Fields {
                key: TraceKey::Root,
                entries: Seq::empty(),
                poped_value: Some(KeyValueSet(TraceKey::Root, Value::MapValue(input))),
            }),
    {
        let bundle = DeserializerBundle::Fields(
            MapDeserializerBundle {
                key: TraceKey::Root,
                entries: Vec::new(),
                poped_value: Some(KeyValueSet(TraceKey::Root, Value::from_fields(input))),
            },
        );
        assert(Seq::<(String, Value)>::empty().reverse() =~= Seq::<(String, Value)>::empty());
        bundle
    }
}

/// A traversal of one document.
pub struct Deserializer {
    processing_bundle: DeserializerBundle,
    bundle_stack: Vec<DeserializerBundle>,
}

impl View for Deserializer {
    type V = State;

    closed spec fn view(&self) -> State {
        State {
            processing_bundle: self.processing_bundle@,
            bundle_stack: Seq::new(self.bundle_stack@.len(), |i: int| self.bundle_stack@[i]@),
        }
    }
}

impl Deserializer {
    #[verifier::type_invariant]
    spec fn bundles_spell_the_path(self) -> bool {
        self@.wf()
    }

    /// A traversal of nothing, to stand in while another is taken apart:
    /// one bundle at the root, with no entry and no value waiting, and no
    /// bundle suspended around it, so that any `pop` of it gives `Eof`.
    fn exhausted() -> (deserializer: Deserializer)
        ensures
            deserializer@ == (State {
                processing_bundle: Bundle::Fields {
                    key: TraceKey::Root,
                    entries: Seq::empty(),
                    poped_value: None,
                },
                bundle_stack: Seq::empty(),
            }),
            deserializer@.wf(),
            deserializer@.next() is None,
            deserializer@.after_pop() == deserializer@,
    {
        let bundle = DeserializerBundle::Fields(
            MapDeserializerBundle { key: TraceKey::Root, entries: Vec::new(), poped_value: None },
        );
        assert(Seq::<(String, Value)>::empty().reverse() =~= Seq::<(String, Value)>::empty());
        let ghost state = State { processing_bundle: bundle@, bundle_stack: Seq::empty() };
        assert(state.bundles() =~= seq![bundle@]);
        let deserializer = Deserializer { processing_bundle: bundle, bundle_stack: Vec::new() };
        assert(deserializer@.bundle_stack =~= Seq::empty());
        deserializer
    }

    /// The traversal at its start, determined by the document alone.
    pub open spec fn initial(input: Fields) -> State {
        State {
            processing_bundle: Bundle::Fields {
                key: TraceKey::Root,
                entries: Seq::empty(),
                poped_value: Some(KeyValueSet(TraceKey::Root, Value::MapValue(input))),
            },
            bundle_stack: Seq::empty(),
        }
    }

    /// A traversal of the document with the fields `input`. The first thing
    /// it hands out is the document as one mapping at the root.
    pub fn from_fields(input: Fields) -> (deserializer: Deserializer)
        ensures
            deserializer@ == Self::initial(input),
            deserializer@.wf(),
    {
        let bundle = DeserializerBundle::root(input);
        let ghost state = State { processing_bundle: bundle@, bundle_stack: Seq::empty() };
        assert(state.bundles() =~= seq![bundle@]);
        let deserializer = Deserializer { processing_bundle: bundle, bundle_stack: Vec::new() };
        assert(deserializer@.bundle_stack =~= Seq::empty());
        deserializer
    }

    /// Hands out the next element. From a mapping that is the name of the
    /// next entry and then its value, keyed by that name below the mapping;
    /// from an array its next value, keyed as an element of the array. At
    /// the end of a container the suspended bundle around it is taken up
    /// again and `EndOfBundle` is handed out; where there is none, the
    /// result is `Eof` and nothing changes.
    pub fn pop(&mut self) -> (r: Result<BundleElement, Error>)
        ensures
            final(self)@.wf(),
            final(self)@ == old(self)@.after_pop(),
            r == match old(self)@.next() {
                Some(element) => Ok::<BundleElement, Error>(element),
                None => Err::<BundleElement, Error>(Error::Eof),
            },
    {
        let mut current = Deserializer::exhausted();
        core::mem::swap(self, &mut current);
        proof {
            use_type_invariant(&current);
            lemma_pop_wf(current@);
        }
        let ghost before = current@;
        let Deserializer { processing_bundle, bundle_stack } = current;
        let mut processing_bundle = processing_bundle;
        let mut bundle_stack = bundle_stack;
        let r = match processing_bundle.take_next() {
            Some(element) => Ok(element),
            None => match bundle_stack.pop() {
                None => Err(Error::Eof),
                Some(bundle) => {
                    processing_bundle = bundle;
                    Ok(BundleElement::EndOfBundle)
                },
            },
        };
        let ghost after = State {
            processing_bundle: processing_bundle@,
            bundle_stack: Seq::new(bundle_stack@.len(), |i: int| bundle_stack@[i]@),
        };
        assert(after.bundle_stack =~= before.after_pop().bundle_stack);
        assert(after == before.after_pop());
        *self = Deserializer { processing_bundle, bundle_stack };
        r
    }

    /// Looks at what `pop` would hand out, and takes nothing.
    pub fn peek(&self) -> (r: Result<PeekedBundleElement<'_>, Error>)
        ensures
            self@.wf(),
            match self@.next() {
                Some(BundleElement::Key(name)) => r == Ok::<PeekedBundleElement, Error>(
                    PeekedBundleElement::Key(&name),
                ),
                Some(BundleElement::Value(set)) => r == Ok::<PeekedBundleElement, Error>(
                    PeekedBundleElement::Value(&set.1),
                ),
                Some(BundleElement::EndOfBundle) => r == Ok::<PeekedBundleElement, Error>(
                    PeekedBundleElement::EndOfBundle,
                ),
                None => r == Err::<PeekedBundleElement, Error>(Error::Eof),
            },
    {
        proof {
            use_type_invariant(self);
        }
        match self.processing_bundle.peek_next() {
            Some(element) => Ok(element),
            None => {
                if self.bundle_stack.len() > 0 {
                    Ok(PeekedBundleElement::EndOfBundle)
                } else {
                    Err(Error::Eof)
                }
            },
        }
    }

    /// Whether the container being read has an element left. `Eof` where
    /// it has none and no container is suspended around it.
    pub fn has_next(&self) -> (r: Result<bool, Error>)
        ensures
            r == match self@.next() {
                Some(element) => Ok::<bool, Error>(!(element is EndOfBundle)),
                None => Err::<bool, Error>(Error::Eof),
            },
    {
        match self.peek() {
            Ok(PeekedBundleElement::EndOfBundle) => Ok(false),
            Ok(_) => Ok(true),
            Err(error) => Err(error),
        }
    }

    /// Pops the value that is next.
    fn pop_value(&mut self) -> (r: Result<KeyValueSet, Error>)
        requires
            old(self)@.offers_value(),
        ensures
            final(self)@.wf(),
            final(self)@ == old(self)@.after_pop(),
            r == match old(self)@.next() {
                Some(BundleElement::Value(set)) => Ok::<KeyValueSet, Error>(set),
                _ => Err::<KeyValueSet, Error>(Error::Eof),
            },
            r is Ok ==> final(self)@.admits(r->Ok_0.0),
    {
        proof {
            use_type_invariant(&*self);
            lemma_pop_wf(self@);
        }
        match self.pop() {
            Ok(BundleElement::Value(set)) => Ok(set),
            _ => Err(Error::Eof),
        }
    }

    /// Suspends the bundle being read and reads `bundle` in its place.
    fn enter(&mut self, bundle: DeserializerBundle)
        requires
            old(self)@.admits(bundle@.key()),
            !(bundle@ matches Bundle::Fields { poped_value: Some(_), .. }),
        ensures
            final(self)@.wf(),
            final(self)@ == old(self)@.entered(bundle@),
    {
        let mut current = Deserializer::exhausted();
        core::mem::swap(self, &mut current);
        proof {
            use_type_invariant(&current);
            lemma_enter_wf(current@, bundle@);
        }
        let ghost before = current@;
        let Deserializer { processing_bundle, bundle_stack } = current;
        let mut bundle_stack = bundle_stack;
        bundle_stack.push(processing_bundle);
        let ghost after = State {
            processing_bundle: bundle@,
            bundle_stack: Seq::new(bundle_stack@.len(), |i: int| bundle_stack@[i]@),
        };
        assert(after.bundle_stack =~= before.bundle_stack.push(before.processing_bundle));
        assert(after == before.entered(bundle@));
        *self = Deserializer { processing_bundle: bundle, bundle_stack };
    }

    /// Reads a boolean.
    pub fn get_bool(&mut self) -> (r: Result<bool, Error>)
        requires
            old(self)@.offers_value(),
        ensures
            final(self)@.wf(),
            final(self)@ == old(self)@.after_pop(),
            match old(self)@.next() {
                Some(BundleElement::Value(KeyValueSet(key, value))) => match value {
                    Value::BooleanValue(b) => r == Ok::<bool, Error>(b),
                    _ => refused(r, ErrorKind::ExpectedBoolean, key, value),
                },
                _ => r == Err::<bool, Error>(Error::Eof),
            },
    {
        let KeyValueSet(key, value) = self.pop_value()?;
        match value {
            Value::BooleanValue(b) => Ok(b),
            _ => Err(mismatch(ErrorKind::ExpectedBoolean, key, &value)),
        }
    }

    /// Reads a string: the name of a field where a name is next, else the
    /// content of a string or of a reference.
    pub fn get_string(&mut self) -> (r: Result<String, Error>)
        requires
            !(old(self)@.next() matches Some(BundleElement::EndOfBundle)),
        ensures
            final(self)@.wf(),
            final(self)@ == old(self)@.after_pop(),
            match old(self)@.next() {
                Some(BundleElement::Key(name)) => r == Ok::<String, Error>(name),
                Some(BundleElement::Value(KeyValueSet(key, value))) => match value {
                    Value::StringValue(s) => r == Ok::<String, Error>(s),
                    Value::ReferenceValue(s) => r == Ok::<String, Error>(s),
                    _ => refused(r, ErrorKind::ExpectedString, key, value),
                },
                _ => r == Err::<String, Error>(Error::Eof),
            },
    {
        match self.pop()? {
            BundleElement::Key(key) => Ok(key),
            BundleElement::Value(KeyValueSet(key, value)) => match value {
                Value::StringValue(s) => Ok(s),
                Value::ReferenceValue(s) => Ok(s),
                _ => Err(mismatch(ErrorKind::ExpectedString, key, &value)),
            },
            BundleElement::EndOfBundle => Err(Error::Eof),
        }
    }

    /// Reads an unsigned integer of the width `width`, from an integer or
    /// from the seconds of a timestamp.
    pub fn get_unsigned(&mut self, width: Width) -> (r: Result<u64, Error>)
        requires
            old(self)@.offers_value(),
        ensures
            final(self)@.wf(),
            final(self)@ == old(self)@.after_pop(),
            match old(self)@.next() {
                Some(BundleElement::Value(KeyValueSet(key, value))) => match value
                    .spec_integer_value() {
                    Some(i) => if 0 <= i <= width.spec_max_unsigned() {
                        r == Ok::<u64, Error>(i as u64)
                    } else {
                        refused(r, ErrorKind::CouldNotConvertNumber, key, value)
                    },
                    None => refused(r, ErrorKind::ExpectedInteger, key, value),
                },
                _ => r == Err::<u64, Error>(Error::Eof),
            },
    {
        let KeyValueSet(key, value) = self.pop_value()?;
        match value.integer_value() {
            Some(i) => {
                if i >= 0 && i as u64 <= width.max_unsigned() {
                    Ok(i as u64)
                } else {
                    Err(mismatch(ErrorKind::CouldNotConvertNumber, key, &value))
                }
            },
            None => Err(mismatch(ErrorKind::ExpectedInteger, key, &value)),
        }
    }

    /// Reads a signed integer of the width `width`, from an integer or from
    /// the seconds of a timestamp.
    pub fn get_signed(&mut self, width: Width) -> (r: Result<i64, Error>)
        requires
            old(self)@.offers_value(),
        ensures
            final(self)@.wf(),
            final(self)@ == old(self)@.after_pop(),
            match old(self)@.next() {
                Some(BundleElement::Value(KeyValueSet(key, value))) => match value
                    .spec_integer_value() {
                    Some(i) => if width.spec_min_signed() <= i <= width.spec_max_signed() {
                        r == Ok::<i64, Error>(i)
                    } else {
                        refused(r, ErrorKind::CouldNotConvertNumber, key, value)
                    },
                    None => refused(r, ErrorKind::ExpectedInteger, key, value),
                },
                _ => r == Err::<i64, Error>(Error::Eof),
            },
    {
        let KeyValueSet(key, value) = self.pop_value()?;
        match value.integer_value() {
            Some(i) => {
                if width.min_signed() <= i && i <= width.max_signed() {
                    Ok(i)
                } else {
                    Err(mismatch(ErrorKind::CouldNotConvertNumber, key, &value))
                }
            },
            None => Err(mismatch(ErrorKind::ExpectedInteger, key, &value)),
        }
    }

    /// Reads a double: its bit pattern, unchanged.
    pub fn get_f64(&mut self) -> (r: Result<u64, Error>)
        requires
            old(self)@.offers_value(),
        ensures
            final(self)@.wf(),
            final(self)@ == old(self)@.after_pop(),
            match old(self)@.next() {
                Some(BundleElement::Value(KeyValueSet(key, value))) => match value {
                    Value::DoubleValue(d) => r == Ok::<u64, Error>(d.bits),
                    _ => refused(r, ErrorKind::ExpectedDouble, key, value),
                },
                _ => r == Err::<u64, Error>(Error::Eof),
            },
    {
        let KeyValueSet(key, value) = self.pop_value()?;
        match value {
            Value::DoubleValue(d) => Ok(d.bits),
            _ => Err(mismatch(ErrorKind::ExpectedDouble, key, &value)),
        }
    }

    /// Reads a double that is to be narrowed to single precision: its bit
    /// pattern, where its magnitude is strictly below the largest finite
    /// single precision magnitude. The bound itself is refused, and so are
    /// the infinities and NaNs.
    pub fn get_f32(&mut self) -> (r: Result<u64, Error>)
        requires
            old(self)@.offers_value(),
        ensures
            final(self)@.wf(),
            final(self)@ == old(self)@.after_pop(),
            match old(self)@.next() {
                Some(BundleElement::Value(KeyValueSet(key, value))) => match value {
                    Value::DoubleValue(d) => if d.fits_single() {
                        r == Ok::<u64, Error>(d.bits)
                    } else {
                        refused(r, ErrorKind::CouldNotConvertNumber, key, value)
                    },
                    _ => refused(r, ErrorKind::ExpectedDouble, key, value),
                },
                _ => r == Err::<u64, Error>(Error::Eof),
            },
    {
        let KeyValueSet(key, value) = self.pop_value()?;
        match value {
            Value::DoubleValue(d) => {
                if d.is_single() {
                    Ok(d.bits)
                } else {
                    Err(mismatch(ErrorKind::CouldNotConvertNumber, key, &Value::DoubleValue(d)))
                }
            },
            _ => Err(mismatch(ErrorKind::ExpectedDouble, key, &value)),
        }
    }

    /// Reads a byte buffer.
    pub fn get_bytes(&mut self) -> (r: Result<Vec<u8>, Error>)
        requires
            old(self)@.offers_value(),
        ensures
            final(self)@.wf(),
            final(self)@ == old(self)@.after_pop(),
            match old(self)@.next() {
                Some(BundleElement::Value(KeyValueSet(key, value))) => match value {
                    Value::BytesValue(bytes) => r == Ok::<Vec<u8>, Error>(bytes),
                    _ => refused(r, ErrorKind::ExpectedBytes, key, value),
                },
                _ => r == Err::<Vec<u8>, Error>(Error::Eof),
            },
    {
        let KeyValueSet(key, value) = self.pop_value()?;
        match value {
            Value::BytesValue(bytes) => Ok(bytes),
            _ => Err(mismatch(ErrorKind::ExpectedBytes, key, &value)),
        }
    }

    /// Reads an optional value: a null is taken and stands for absence;
    /// anything else stays where it is, to be read as the value itself.
    /// The result says whether a value is present.
    pub fn deserialize_option(&mut self) -> (r: Result<bool, Error>)
        requires
            old(self)@.offers_value(),
        ensures
            final(self)@.wf(),
            match old(self)@.next() {
                Some(BundleElement::Value(KeyValueSet(key, value))) => if value is NullValue {
                    r == Ok::<bool, Error>(false) && final(self)@ == old(self)@.after_pop()
                } else {
                    r == Ok::<bool, Error>(true) && final(self)@ == old(self)@
                },
                _ => r == Err::<bool, Error>(Error::Eof) && final(self)@ == old(self)@,
            },
    {
        proof {
            use_type_invariant(&*self);
        }
        let present = match self.peek() {
            Ok(PeekedBundleElement::Value(value)) => value.is_some_value(),
            _ => {
                return Err(Error::Eof);
            },
        };
        if present {
            Ok(true)
        } else {
            let _ = self.pop();
            Ok(false)
        }
    }

    /// Reads a unit: a null.
    pub fn deserialize_unit(&mut self) -> (r: Result<(), Error>)
        requires
            old(self)@.offers_value(),
        ensures
            final(self)@.wf(),
            final(self)@ == old(self)@.after_pop(),
            match old(self)@.next() {
                Some(BundleElement::Value(KeyValueSet(key, value))) => match value {
                    Value::NullValue => r == Ok::<(), Error>(()),
                    _ => refused(r, ErrorKind::ExpectedNull, key, value),
                },
                _ => r == Err::<(), Error>(Error::Eof),
            },
    {
        let KeyValueSet(key, value) = self.pop_value()?;
        match value {
            Value::NullValue => Ok(()),
            _ => Err(mismatch(ErrorKind::ExpectedNull, key, &value)),
        }
    }

    /// Enters an array: takes the array that is next and reads its values
    /// from then on, each keyed as an element of the array. The result is
    /// the path of the array, which `end_seq` asks for.
    pub fn deserialize_seq(&mut self) -> (r: Result<TraceKey, Error>)
        requires
            old(self)@.offers_value(),
        ensures
            final(self)@.wf(),
            match old(self)@.next() {
                Some(BundleElement::Value(KeyValueSet(key, value))) => match value {
                    Value::ArrayValue(values) => r == Ok::<TraceKey, Error>(key) && final(self)@
                        == old(self)@.after_pop().entered(Bundle::Array { key, values: values@ }),
                    _ => final(self)@ == old(self)@.after_pop() && refused(
                        r,
                        ErrorKind::ExpectedArray,
                        key,
                        value,
                    ),
                },
                _ => r == Err::<TraceKey, Error>(Error::Eof) && final(self)@
                    == old(self)@.after_pop(),
            },
    {
        let KeyValueSet(key, value) = self.pop_value()?;
        match value {
            Value::ArrayValue(values) => {
                let bundle = DeserializerBundle::array(&key, values);
                self.enter(bundle);
                Ok(key)
            },
            _ => Err(mismatch(ErrorKind::ExpectedArray, key, &value)),
        }
    }

    /// Leaves the array at `key`: it must be exhausted. Where a value of it
    /// is left, that value is taken and the result is `ExpectedArrayEnd`.
    pub fn end_seq(&mut self, key: TraceKey) -> (r: Result<(), Error>)
        ensures
            final(self)@.wf(),
            final(self)@ == old(self)@.after_pop(),
            r == match old(self)@.next() {
                Some(BundleElement::EndOfBundle) => Ok::<(), Error>(()),
                Some(_) => Err::<(), Error>(Error::ExpectedArrayEnd(key)),
                None => Err::<(), Error>(Error::Eof),
            },
    {
        match self.pop()? {
            BundleElement::EndOfBundle => Ok(()),
            _ => Err(Error::ExpectedArrayEnd(key)),
        }
    }

    /// Enters a mapping: takes the mapping, point, timestamp or key that
    /// is next and reads its entries from then on, each value keyed by its
    /// name below the mapping.
    pub fn deserialize_map(&mut self) -> (r: Result<(), Error>)
        requires
            old(self)@.offers_value(),
        ensures
            final(self)@.wf(),
            match old(self)@.next() {
                Some(BundleElement::Value(KeyValueSet(key, value))) => if value
                    .spec_has_map_value() {
                    &&& r == Ok::<(), Error>(())
                    &&& final(self)@.bundle_stack == old(self)@.after_pop().bundles()
                    &&& final(self)@.processing_bundle matches Bundle::Fields {
                        key: entered,
                        entries,
                        poped_value: None,
                    }
                    &&& entered == key
                    &&& value.is_map_entries(entries)
                } else {
                    final(self)@ == old(self)@.after_pop() && refused(
                        r,
                        ErrorKind::ExpectedMap,
                        key,
                        value,
                    )
                },
                _ => r == Err::<(), Error>(Error::Eof) && final(self)@ == old(self)@.after_pop(),
            },
    {
        let KeyValueSet(key, value) = self.pop_value()?;
        if value.has_map_value() {
            match value.map_value() {
                Some(fields) => {
                    let bundle = DeserializerBundle::map(&key, fields);
                    self.enter(bundle);
                    Ok(())
                },
                None => Err(Error::Eof),
            }
        } else {
            Err(mismatch(ErrorKind::ExpectedMap, key, &value))
        }
    }

    /// Leaves a mapping that is exhausted, and takes up the bundle around
    /// it again. Also leaves the mapping that `deserialize_enum` entered.
    pub fn end_map(&mut self) -> (r: Result<(), Error>)
        requires
            old(self)@.at_end(),
        ensures
            final(self)@.wf(),
            final(self)@ == old(self)@.after_pop(),
            r == match old(self)@.next() {
                Some(_) => Ok::<(), Error>(()),
                None => Err::<(), Error>(Error::Eof),
            },
    {
        match self.pop()? {
            _ => Ok(()),
        }
    }

    /// Takes up a tagged union. A string that is next stays where it is and
    /// names a variant without payload: the result is `false`. A mapping of
    /// exactly one entry is entered, its one name being the variant and its
    /// value the payload: the result is `true`, and `end_map` leaves the
    /// mapping. Any other value is taken and refused.
    pub fn deserialize_enum(&mut self) -> (r: Result<bool, Error>)
        requires
            old(self)@.offers_value(),
        ensures
            final(self)@.wf(),
            match old(self)@.next() {
                Some(BundleElement::Value(KeyValueSet(key, value))) => match value {
                    Value::StringValue(_) => r == Ok::<bool, Error>(false) && final(self)@ == old(
                        self,
                    )@,
                    Value::MapValue(fields) => if fields@.len() == 1 {
                        r == Ok::<bool, Error>(true) && final(self)@ == old(
                            self,
                        )@.after_pop().entered(
                            Bundle::Fields { key, entries: fields.entries(), poped_value: None },
                        )
                    } else {
                        final(self)@ == old(self)@.after_pop() && refused(
                            r,
                            ErrorKind::ExpectedEnum,
                            key,
                            value,
                        )
                    },
                    _ => final(self)@ == old(self)@.after_pop() && refused(
                        r,
                        ErrorKind::ExpectedEnum,
                        key,
                        value,
                    ),
                },
                _ => r == Err::<bool, Error>(Error::Eof) && final(self)@ == old(self)@,
            },
    {
        proof {
            use_type_invariant(&*self);
        }
        let tag = match self.peek() {
            Ok(PeekedBundleElement::Value(value)) => match value {
                Value::StringValue(_) => true,
                _ => false,
            },
            _ => {
                return Err(Error::Eof);
            },
        };
        if tag {
            return Ok(false);
        }
        let KeyValueSet(key, value) = self.pop_value()?;
        match value {
            Value::MapValue(fields) => {
                if fields.len() == 1 {
                    let bundle = DeserializerBundle::map(&key, fields);
                    self.enter(bundle);
                    Ok(true)
                } else {
                    Err(mismatch(ErrorKind::ExpectedEnum, key, &Value::MapValue(fields)))
                }
            },
            _ => Err(mismatch(ErrorKind::ExpectedEnum, key, &value)),
        }
    }

    /// Takes the next element and drops it, whatever it is.
    pub fn deserialize_ignored_any(&mut self) -> (r: Result<(), Error>)
        ensures
            final(self)@.wf(),
            final(self)@ == old(self)@.after_pop(),
            r == match old(self)@.next() {
                Some(_) => Ok::<(), Error>(()),
                None => Err::<(), Error>(Error::Eof),
            },
    {
        match self.pop()? {
            _ => Ok(()),
        }
    }
}

/// Whether `r` is the error of kind `kind` about `value`, found at `key`.
pub open spec fn refused<T>(
    r: Result<T, Error>,
    kind: ErrorKind,
    key: TraceKey,
    value: Value,
) -> bool {
    r matches Err(e) && e.reports(kind, key, value.text())
}

/// The width of an integer destination.
#[derive(Debug, Clone, Copy, PartialEq, Eq, Structural)]
pub enum Width {
    W8,
    W16,
    W32,
    W64,
}

impl Width {
    /// The number of bits.
    pub open spec fn bits(self) -> nat {
        match self {
            Width::W8 => 8,
            Width::W16 => 16,
            Width::W32 => 32,
            Width::W64 => 64,
        }
    }

    /// The largest unsigned integer of the width.
    pub open spec fn spec_max_unsigned(self) -> int {
        match self {
            Width::W8 => 0xff,
            Width::W16 => 0xffff,
            Width::W32 => 0xffff_ffff,
            Width::W64 => 0xffff_ffff_ffff_ffff,
        }
    }

    /// The largest signed integer of the width.
    pub open spec fn spec_max_signed(self) -> int {
        match self {
            Width::W8 => 0x7f,
            Width::W16 => 0x7fff,
            Width::W32 => 0x7fff_ffff,
            Width::W64 => 0x7fff_ffff_ffff_ffff,
        }
    }

    /// The smallest signed integer of the width.
    pub open spec fn spec_min_signed(self) -> int {
        -self.spec_max_signed() - 1
    }

    /// The largest unsigned integer of the width.
    pub fn max_unsigned(self) -> (max: u64)
        ensures
            max == self.spec_max_unsigned(),
    {
        match self {
            Width::W8 => 0xffu64,
            Width::W16 => 0xffffu64,
            Width::W32 => 0xffff_ffffu64,
            Width::W64 => 0xffff_ffff_ffff_ffffu64,
        }
    }

    /// The largest signed integer of the width.
    pub fn max_signed(self) -> (max: i64)
        ensures
            max == self.spec_max_signed(),
    {
        match self {
            Width::W8 => 0x7fi64,
            Width::W16 => 0x7fffi64,
            Width::W32 => 0x7fff_ffffi64,
            Width::W64 => 0x7fff_ffff_ffff_ffffi64,
        }
    }

    /// The smallest signed integer of the width.
    pub fn min_signed(self) -> (min: i64)
        ensures
            min == self.spec_min_signed(),
    {
        -self.max_signed() - 1
    }
}

/// The error for a value of the wrong shape or size.
fn mismatch(kind: ErrorKind, key: TraceKey, value: &Value) -> (error: Error)
    requires
        kind != ErrorKind::Message,
        kind != ErrorKind::Eof,
        kind != ErrorKind::ExpectedArrayEnd,
    ensures
        error.reports(kind, key, value.text()),
{
    Error::mismatch(kind, key, value.to_string())
}


impl State {
    /// The traversal after `n` calls of `pop`.
    pub open spec fn after_pops(self, n: nat) -> State
        decreases n,
    {
        if n == 0 {
            self
        } else {
            self.after_pops((n - 1) as nat).after_pop()
        }
    }
}

/// The bounds of a width are those of two's complement: an unsigned
/// integer of `W` bits lies between `0` and `2^W - 1`, a signed one between
/// `-2^(W-1)` and `2^(W-1) - 1`.
pub proof fn lemma_width_bounds(width: Width)
    ensures
        width.spec_max_unsigned() == pow2(width.bits()) - 1,
        width.spec_max_signed() == pow2((width.bits() - 1) as nat) - 1,
        width.spec_min_signed() == -pow2((width.bits() - 1) as nat),
{
    lemma2_to64();
    lemma2_to64_rest();
}

/// Only a mapping, a point, a timestamp and a key are read as mappings. A
/// point is read as one of exactly `latitude` and `longitude`, a timestamp
/// as one of exactly `seconds` and `nanos`, each with the value it has in
/// the point or the timestamp, and a key as one of exactly `partition_id`
/// and `path`, the path being an array with one element for each element
/// of the key's path.
pub proof fn lemma_map_like_fields(value: Value, entries: Seq<(String, Value)>)
    requires
        value.is_map_entries(entries),
    ensures
        value.spec_has_map_value(),
        value matches Value::GeoPointValue(point) ==> {
            &&& entries.len() == 2
            &&& entries[0].0@ == "latitude"@
            &&& entries[0].1 == Value::DoubleValue(point.latitude)
            &&& entries[1].0@ == "longitude"@
            &&& entries[1].1 == Value::DoubleValue(point.longitude)
        },
        value matches Value::TimestampValue(time) ==> {
            &&& entries.len() == 2
            &&& entries[0].0@ == "seconds"@
            &&& entries[0].1 == Value::IntegerValue(time.seconds)
            &&& entries[1].0@ == "nanos"@
            &&& entries[1].1 == Value::IntegerValue(time.nanos as i64)
        },
        value matches Value::KeyValue(key) ==> {
            &&& entries.len() == 2
            &&& entries[0].0@ == "partition_id"@
            &&& is_partition_value(key.partition_id, entries[0].1)
            &&& entries[1].0@ == "path"@
            &&& entries[1].1 matches Value::ArrayValue(elements) && elements@.len()
                == key.path@.len()
        },
{
    let names = named(entries);
    if value is GeoPointValue || value is TimestampValue || value is KeyValue {
        assert(names.len() == 2);
        assert(names[0] == (entries[0].0@, entries[0].1));
        assert(names[1] == (entries[1].0@, entries[1].1));
    }
}

/// An entry that the destination does not know is passed over by two
/// `pop`s, one for its name and one for its value, whatever the value is:
/// neither fails, and the mapping then stands at its next entry.
pub proof fn lemma_skip_entry(state: State)
    requires
        state.processing_bundle matches Bundle::Fields { poped_value: None, entries, .. }
            && entries.len() > 0,
    ensures
        state.next() is Some,
        state.after_pop().next() is Some,
        state.after_pops(2).bundle_stack == state.bundle_stack,
        state.processing_bundle matches Bundle::Fields { key, entries, .. } && state.after_pops(
            2,
        ).processing_bundle == (Bundle::Fields {
            key,
            entries: entries.drop_first(),
            poped_value: None,
        }),
{
    reveal_with_fuel(State::after_pops, 3);
}

/// A mapping hands out its entries in order, each as its name and then its
/// value keyed by that name below the mapping: after `passed` entries, the
/// next `pop` gives the name of entry `passed` and the one after it its
/// value. The mapping is at its end exactly after all its entries.
pub proof fn lemma_entries_in_order(state: State, passed: nat)
    requires
        state.processing_bundle matches Bundle::Fields { poped_value: None, entries, .. }
            && passed <= entries.len(),
        state.bundle_stack.len() > 0,
    ensures
        state.after_pops(2 * passed).bundle_stack == state.bundle_stack,
        state.processing_bundle matches Bundle::Fields { key, entries, .. } && {
            &&& state.after_pops(2 * passed).processing_bundle == (Bundle::Fields {
                key,
                entries: entries.subrange(passed as int, entries.len() as int),
                poped_value: None,
            })
            &&& passed < entries.len() ==> state.after_pops(2 * passed).next() == Some(
                BundleElement::Key(entries[passed as int].0),
            )
            &&& passed < entries.len() ==> state.after_pops(2 * passed + 1).next() == Some(
                BundleElement::Value(
                    KeyValueSet(
                        TraceKey::Field(entries[passed as int].0, Box::new(key)),
                        entries[passed as int].1,
                    ),
                ),
            )
            &&& (state.after_pops(2 * passed).next() == Some(BundleElement::EndOfBundle)
                <==> passed == entries.len())
        },
    decreases passed,
{
    let entries = state.processing_bundle->Fields_entries;
    if passed == 0 {
        assert(entries.subrange(0, entries.len() as int) =~= entries);
    } else {
        lemma_entries_in_order(state, (passed - 1) as nat);
        let before = state.after_pops((2 * (passed - 1)) as nat);
        let rest = entries.subrange(passed - 1, entries.len() as int);
        assert(rest.drop_first() =~= entries.subrange(passed as int, entries.len() as int));
        assert(state.after_pops((2 * passed) as nat) == before.after_pop().after_pop()) by {
            reveal_with_fuel(State::after_pops, 3);
        }
    }
    assert(state.after_pops(2 * passed + 1) == state.after_pops(2 * passed).after_pop()) by {
        reveal_with_fuel(State::after_pops, 2);
    }
}

/// After `taken` values of an array have been popped, the array is at its
/// end exactly if `taken` is its length: a destination of a fixed length
/// leaves the array without error only if the two lengths agree.
pub proof fn lemma_array_length(state: State, taken: nat)
    requires
        state.processing_bundle matches Bundle::Array { values, .. } && taken <= values.len(),
        state.bundle_stack.len() > 0,
    ensures
        state.after_pops(taken).bundle_stack == state.bundle_stack,
        state.processing_bundle matches Bundle::Array { key, values } && state.after_pops(
            taken,
        ).processing_bundle == (Bundle::Array {
            key,
            values: values.subrange(taken as int, values.len() as int),
        }),
        state.processing_bundle matches Bundle::Array { values, .. } && (state.after_pops(
            taken,
        ).next() == Some(BundleElement::EndOfBundle) <==> taken == values.len()),
    decreases taken,
{
    let values = state.processing_bundle->Array_values;
    if taken == 0 {
        assert(values.subrange(0, values.len() as int) =~= values);
    } else {
        lemma_array_length(state, (taken - 1) as nat);
        let before = values.subrange(taken - 1, values.len() as int);
        assert(before.drop_first() =~= values.subrange(taken as int, values.len() as int));
    }
}

/// A container that is entered and read to its end is left by one `pop`,
/// which hands out `EndOfBundle` and puts the traversal back where it was
/// before the container was entered.
pub proof fn lemma_enter_then_leave(state: State, bundle: Bundle)
    requires
        bundle.next() is None,
    ensures
        state.entered(bundle).next() == Some(BundleElement::EndOfBundle),
        state.entered(bundle).after_pop() == state,
{
    let entered = state.entered(bundle);
    assert(entered.bundle_stack.drop_last() =~= state.bundle_stack);
}

} // verus!
