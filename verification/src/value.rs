//! Resolved values and the tables that bind names to them.

use vstd::hash_map::StringHashMap;
use vstd::prelude::*;
use vstd::string::*;
use crate::float::{FloatValue, FloatView};

verus! {

/// The result of folding an expression at compile time.
#[derive(Debug, PartialEq)]
pub enum ConstValue {
    Number(i32),
    Float(FloatValue),
    String(String),
    Boolean(bool),
    Array(Vec<ConstValue>),
    Null,
}

/// The mathematical model of a [`ConstValue`].
pub enum ValueView {
    Number(i32),
    Float(FloatView),
    Text(Seq<char>),
    Boolean(bool),
    Array(Seq<ValueView>),
    Null,
}

/// Models of a list of values, element by element.
pub open spec fn value_list_view(items: Seq<ConstValue>) -> Seq<ValueView>
    decreases items,
{
    Seq::new(
        items.len(),
        |i: int|
            if 0 <= i < items.len() {
                items[i].model()
            } else {
                ValueView::Null
            },
    )
}

impl ConstValue {
    pub open spec fn model(self) -> ValueView
        decreases self,
    {
        match self {
            ConstValue::Number(n) => ValueView::Number(n),
            ConstValue::Float(f) => ValueView::Float(f@),
            ConstValue::String(s) => ValueView::Text(s@),
            ConstValue::Boolean(b) => ValueView::Boolean(b),
            ConstValue::Array(items) => ValueView::Array(value_list_view(items@)),
            ConstValue::Null => ValueView::Null,
        }
    }
}

impl Clone for ConstValue {
    #[verifier::loop_isolation(false)]
    fn clone(&self) -> (r: ConstValue)
        ensures
            r@ == self@,
        decreases self,
    {
        match self {
            ConstValue::Number(n) => ConstValue::Number(*n),
            ConstValue::Float(f) => ConstValue::Float(f.clone()),
            ConstValue::String(s) => ConstValue::String(s.clone()),
            ConstValue::Boolean(b) => ConstValue::Boolean(*b),
            ConstValue::Array(items) => {
                let mut copy: Vec<ConstValue> = Vec::new();
                let mut i: usize = 0;
                while i < items.len()
                    invariant
                        i <= items.len(),
                        copy@.len() == i,
                        forall|k: int| 0 <= k < i ==> (#[trigger] copy@[k])@ == items@[k]@,
                    decreases items.len() - i,
                {
                    copy.push(items[i].clone());
                    i += 1;
                }
                assert(value_list_view(copy@) =~= value_list_view(items@));
                ConstValue::Array(copy)
            },
            ConstValue::Null => ConstValue::Null,
        }
    }
}

impl View for ConstValue {
    type V = ValueView;

    open spec fn view(&self) -> ValueView {
        self.model()
    }
}

/// A mapping from names to values, as the generator sees it.
pub type Bindings = Map<Seq<char>, ValueView>;

/// A table that binds names to resolved values: a hash map keyed by the
/// name. A name is bound at most once; binding it again replaces its
/// value.
pub struct SymbolTable {
    map: StringHashMap<ConstValue>,
}

impl View for SymbolTable {
    type V = Bindings;

    closed spec fn view(&self) -> Bindings {
        self.map@.map_values(|v: ConstValue| v@)
    }
}

impl SymbolTable {
    /// A table without bindings.
    pub fn new() -> (r: SymbolTable)
        ensures
            r@ == Map::<Seq<char>, ValueView>::empty(),
    {
        let r = SymbolTable { map: StringHashMap::new() };
        assert(r@ =~= Map::<Seq<char>, ValueView>::empty());
        r
    }

    /// The value bound to a name.
    pub fn get(&self, name: &str) -> (r: Option<&ConstValue>)
        ensures
            match r {
                Some(v) => self@.contains_key(name@) && v@ == self@[name@],
                None => !self@.contains_key(name@),
            },
    {
        self.map.get(name)
    }

    /// Whether a name is bound.
    pub fn contains_key(&self, name: &str) -> (r: bool)
        ensures
            r == self@.contains_key(name@),
    {
        self.map.contains_key(name)
    }

    /// Binds a name to a value, replacing what it was bound to before.
    pub fn insert(&mut self, name: String, value: ConstValue)
        ensures
            final(self)@ == old(self)@.insert(name@, value@),
    {
        self.map.insert(name, value);
        assert(self@ =~= old(self)@.insert(name@, value@));
    }
}

} // verus!
