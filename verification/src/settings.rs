//! The table of settings: named values, each of a fixed type.

use vstd::prelude::*;
use vstd::string::*;

verus! {

/// The value of a setting. Floating-point values are held by their bits.
#[derive(Debug)]
pub enum SettingValue {
    Bool(bool),
    U32(u32),
    U32Tuple(u32, u32),
    /// Two single-precision values, by their bits.
    F32Tuple(u32, u32),
    /// A double-precision value, by its bits.
    F64(u64),
    Str(String),
    Ident(String),
    /// A color, by its text.
    Rgba8(String),
}

/// The value of a setting as a mathematical value.
pub enum SettingView {
    Bool(bool),
    U32(u32),
    U32Tuple(u32, u32),
    F32Tuple(u32, u32),
    F64(u64),
    Str(Seq<char>),
    Ident(Seq<char>),
    Rgba8(Seq<char>),
}

impl View for SettingValue {
    type V = SettingView;

    open spec fn view(&self) -> SettingView {
        match self {
            SettingValue::Bool(b) => SettingView::Bool(*b),
            SettingValue::U32(n) => SettingView::U32(*n),
            SettingValue::U32Tuple(a, b) => SettingView::U32Tuple(*a, *b),
            SettingValue::F32Tuple(a, b) => SettingView::F32Tuple(*a, *b),
            SettingValue::F64(f) => SettingView::F64(*f),
            SettingValue::Str(s) => SettingView::Str(s@),
            SettingValue::Ident(s) => SettingView::Ident(s@),
            SettingValue::Rgba8(s) => SettingView::Rgba8(s@),
        }
    }
}

/// Whether two values are of the same type.
pub open spec fn same_type(a: SettingView, b: SettingView) -> bool {
    match a {
        SettingView::Bool(_) => b is Bool,
        SettingView::U32(_) => b is U32,
        SettingView::U32Tuple(_, _) => b is U32Tuple,
        SettingView::F32Tuple(_, _) => b is F32Tuple,
        SettingView::F64(_) => b is F64,
        SettingView::Str(_) => b is Str,
        SettingView::Ident(_) => b is Ident,
        SettingView::Rgba8(_) => b is Rgba8,
    }
}

impl SettingValue {
    /// Whether the value is a switch that is on.
    pub fn is_set(&self) -> (r: bool)
        ensures
            r == (self@ == SettingView::Bool(true)),
    {
        match self {
            SettingValue::Bool(b) => *b,
            _ => false,
        }
    }

    fn has_type_of(&self, other: &SettingValue) -> (r: bool)
        ensures
            r == same_type(self@, other@),
    {
        match (self, other) {
            (SettingValue::Bool(_), SettingValue::Bool(_)) => true,
            (SettingValue::U32(_), SettingValue::U32(_)) => true,
            (SettingValue::U32Tuple(_, _), SettingValue::U32Tuple(_, _)) => true,
            (SettingValue::F32Tuple(_, _), SettingValue::F32Tuple(_, _)) => true,
            (SettingValue::F64(_), SettingValue::F64(_)) => true,
            (SettingValue::Str(_), SettingValue::Str(_)) => true,
            (SettingValue::Ident(_), SettingValue::Ident(_)) => true,
            (SettingValue::Rgba8(_), SettingValue::Rgba8(_)) => true,
            _ => false,
        }
    }
}

/// The settings of a session.
#[derive(Debug)]
pub struct Settings {
    entries: Vec<(String, SettingValue)>,
}

/// The table that a list of entries stands for: the first entry of a name
/// counts.
spec fn table(entries: Seq<(String, SettingValue)>) -> Map<Seq<char>, SettingView>
    decreases entries.len(),
{
    if entries.len() == 0 {
        Map::empty()
    } else {
        let earlier = table(entries.drop_last());
        let (name, value) = entries.last();
        if earlier.contains_key(name@) {
            earlier
        } else {
            earlier.insert(name@, value@)
        }
    }
}

/// Whether the first entry of a name stands at an index.
spec fn first_at(entries: Seq<(String, SettingValue)>, name: Seq<char>, i: int) -> bool {
    &&& 0 <= i < entries.len()
    &&& entries[i].0@ == name
    &&& forall|j: int| 0 <= j < i ==> (#[trigger] entries[j]).0@ != name
}

proof fn lemma_absent(entries: Seq<(String, SettingValue)>, name: Seq<char>)
    requires
        forall|j: int| 0 <= j < entries.len() ==> (#[trigger] entries[j]).0@ != name,
    ensures
        !table(entries).contains_key(name),
    decreases entries.len(),
{
    if entries.len() > 0 {
        lemma_absent(entries.drop_last(), name);
    }
}

proof fn lemma_present(entries: Seq<(String, SettingValue)>, name: Seq<char>, i: int)
    requires
        first_at(entries, name, i),
    ensures
        table(entries).contains_key(name),
        table(entries)[name] == entries[i].1@,
    decreases entries.len(),
{
    let earlier = entries.drop_last();
    if i < earlier.len() {
        assert(first_at(earlier, name, i));
        lemma_present(earlier, name, i);
    } else {
        assert forall|j: int| 0 <= j < earlier.len() implies (#[trigger] earlier[j]).0@ != name by {
            assert(earlier[j] == entries[j]);
        }
        lemma_absent(earlier, name);
    }
}

proof fn lemma_replaced(
    before: Seq<(String, SettingValue)>,
    after: Seq<(String, SettingValue)>,
    name: Seq<char>,
    i: int,
)
    requires
        first_at(before, name, i),
        after.len() == before.len(),
        forall|j: int| 0 <= j < after.len() && j != i ==> #[trigger] after[j] == before[j],
        after[i].0@ == name,
    ensures
        table(after) == table(before).insert(name, after[i].1@),
    decreases before.len(),
{
    let b = before.drop_last();
    let a = after.drop_last();
    if i < b.len() {
        assert(first_at(b, name, i));
        lemma_replaced(b, a, name, i);
        lemma_present(b, name, i);
        assert(after.last() == before.last());
    } else {
        assert(a == b);
        assert forall|j: int| 0 <= j < b.len() implies (#[trigger] b[j]).0@ != name by {
            assert(b[j] == before[j]);
        }
        lemma_absent(b, name);
        assert(table(after) == table(b).insert(name, after[i].1@));
        assert(table(before) == table(b).insert(name, before[i].1@));
    }
    assert(table(after) =~= table(before).insert(name, after[i].1@));
}

impl View for Settings {
    type V = Map<Seq<char>, SettingView>;

    closed spec fn view(&self) -> Map<Seq<char>, SettingView> {
        table(self.entries@)
    }
}

impl Settings {
    /// A table without settings.
    pub fn new() -> (r: Settings)
        ensures
            r@ == Map::<Seq<char>, SettingView>::empty(),
    {
        Settings { entries: Vec::new() }
    }

    /// The place of the first entry of a name.
    fn position(&self, name: &String) -> (r: Option<usize>)
        ensures
            match r {
                Some(i) => first_at(self.entries@, name@, i as int),
                None => forall|j: int|
                    0 <= j < self.entries@.len() ==> (#[trigger] self.entries@[j]).0@ != name@,
            },
    {
        let mut i: usize = 0;
        while i < self.entries.len()
            invariant
                i <= self.entries.len(),
                forall|j: int| 0 <= j < i ==> (#[trigger] self.entries@[j]).0@ != name@,
            decreases self.entries.len() - i,
        {
            if self.entries[i].0 == *name {
                return Some(i);
            }
            i = i + 1;
        }
        None
    }

    /// A setting's value, if the setting exists.
    pub fn get(&self, name: &str) -> (r: Option<&SettingValue>)
        ensures
            match r {
                Some(value) => self@.contains_key(name@) && value@ == self@[name@],
                None => !self@.contains_key(name@),
            },
    {
        match self.position(&name.to_owned()) {
            Some(i) => {
                proof {
                    lemma_present(self.entries@, name@, i as int);
                }
                Some(&self.entries[i].1)
            },
            None => {
                proof {
                    lemma_absent(self.entries@, name@);
                }
                None
            },
        }
    }

    /// Adds a setting. A name that is taken is left as it is. Returns
    /// whether the setting was added.
    pub fn declare(&mut self, name: &str, value: SettingValue) -> (r: bool)
        ensures
            r == !old(self)@.contains_key(name@),
            final(self)@ == if r {
                old(self)@.insert(name@, value@)
            } else {
                old(self)@
            },
    {
        let key = name.to_owned();
        match self.position(&key) {
            Some(i) => {
                proof {
                    lemma_present(self.entries@, name@, i as int);
                }
                false
            },
            None => {
                proof {
                    lemma_absent(self.entries@, name@);
                }
                let ghost before = self.entries@;
                self.entries.push((key, value));
                proof {
                    assert(self.entries@.drop_last() == before);
                }
                true
            },
        }
    }

    /// Sets a setting to a value of its type. Returns whether the setting
    /// exists and is of that type; nothing changes where not.
    pub fn set(&mut self, name: &str, value: SettingValue) -> (r: bool)
        ensures
            r == (old(self)@.contains_key(name@) && same_type(value@, old(self)@[name@])),
            final(self)@ == if r {
                old(self)@.insert(name@, value@)
            } else {
                old(self)@
            },
    {
        let key = name.to_owned();
        match self.position(&key) {
            Some(i) => {
                let ghost before = self.entries@;
                proof {
                    lemma_present(before, name@, i as int);
                }
                if value.has_type_of(&self.entries[i].1) {
                    self.entries[i] = (key, value);
                    proof {
                        lemma_replaced(before, self.entries@, name@, i as int);
                    }
                    true
                } else {
                    false
                }
            },
            None => {
                proof {
                    lemma_absent(self.entries@, name@);
                }
                false
            },
        }
    }
}

/// Values are of the same type where they are of the same variant, and only
/// there.
pub proof fn types_are_told_apart(a: SettingView, b: SettingView)
    ensures
        same_type(a, b) == same_type(b, a),
        same_type(a, b) <==> {
            ||| a is Bool && b is Bool
            ||| a is U32 && b is U32
            ||| a is U32Tuple && b is U32Tuple
            ||| a is F32Tuple && b is F32Tuple
            ||| a is F64 && b is F64
            ||| a is Str && b is Str
            ||| a is Ident && b is Ident
            ||| a is Rgba8 && b is Rgba8
        },
{
}

/// Values of settings are seen with their type and their value.
pub proof fn setting_values_are_seen_as_they_are(b: bool, m: u32, n: u32, f: u64, s: String)
    ensures
        SettingValue::Bool(b)@ == SettingView::Bool(b),
        SettingValue::U32(n)@ == SettingView::U32(n),
        SettingValue::U32Tuple(m, n)@ == SettingView::U32Tuple(m, n),
        SettingValue::F32Tuple(m, n)@ == SettingView::F32Tuple(m, n),
        SettingValue::F64(f)@ == SettingView::F64(f),
        SettingValue::Str(s)@ == SettingView::Str(s@),
        SettingValue::Ident(s)@ == SettingView::Ident(s@),
        SettingValue::Rgba8(s)@ == SettingView::Rgba8(s@),
{
}

} // verus!
