use vstd::prelude::*;
use vstd::string::StringExecFns;

verus! {

/// Whether no two entries share a label.
pub open spec fn labels_unique(s: Seq<(Seq<char>, u32)>) -> bool {
    forall|i: int, j: int| 0 <= i < j < s.len() ==> #[trigger] s[i].0 != #[trigger] s[j].0
}

/// Whether the entry at `i` carries `label`.
pub open spec fn label_at(s: Seq<(Seq<char>, u32)>, label: Seq<char>, i: int) -> bool {
    0 <= i < s.len() && s[i].0 == label
}

pub open spec fn has_label(s: Seq<(Seq<char>, u32)>, label: Seq<char>) -> bool {
    exists|i: int| label_at(s, label, i)
}

/// The weight recorded for a label, if any.
pub open spec fn weight_of(s: Seq<(Seq<char>, u32)>, label: Seq<char>) -> Option<u32> {
    if has_label(s, label) {
        Some(s[choose|i: int| label_at(s, label, i)].1)
    } else {
        None
    }
}

/// Sets the weight of a label: in place where the label is present, else
/// appended at the end.
pub open spec fn table_insert(s: Seq<(Seq<char>, u32)>, label: Seq<char>, w: u32) -> Seq<(Seq<char>, u32)> {
    if has_label(s, label) {
        s.update(choose|i: int| label_at(s, label, i), (label, w))
    } else {
        s.push((label, w))
    }
}

/// Labels given as text, with their weights.
pub open spec fn label_views(s: Seq<(&str, u32)>) -> Seq<(Seq<char>, u32)> {
    Seq::new(s.len(), |i: int| (s[i].0@, s[i].1))
}

/// A weighted option table: labels with weights, in insertion order, each
/// label at most once.
pub struct WeightTable {
    pub entries: Vec<(String, u32)>,
}

impl View for WeightTable {
    type V = Seq<(Seq<char>, u32)>;

    open spec fn view(&self) -> Seq<(Seq<char>, u32)> {
        Seq::new(self.entries@.len(), |i: int| (self.entries@[i].0@, self.entries@[i].1))
    }
}

impl WeightTable {
    pub open spec fn wf(&self) -> bool {
        labels_unique(self@)
    }

    pub fn new() -> (r: WeightTable)
        ensures
            r@ == Seq::<(Seq<char>, u32)>::empty(),
            r.wf(),
    {
        let r = WeightTable { entries: Vec::new() };
        assert(r@ =~= Seq::<(Seq<char>, u32)>::empty());
        r
    }

    /// The position of a label, if present.
    fn position(&self, label: &String) -> (r: Option<usize>)
        requires
            self.wf(),
        ensures
            match r {
                Some(i) => label_at(self@, label@, i as int),
                None => !has_label(self@, label@),
            },
    {
        let mut i: usize = 0;
        while i < self.entries.len()
            invariant
                i <= self@.len(),
                self@.len() == self.entries@.len(),
                forall|j: int| 0 <= j < i ==> self@[j].0 != label@,
            decreases self.entries@.len() - i,
        {
            if self.entries[i].0 == *label {
                return Some(i);
            }
            i = i + 1;
        }
        None
    }

    /// The weight of a label, if present.
    pub fn get(&self, label: &String) -> (r: Option<u32>)
        requires
            self.wf(),
        ensures
            r == weight_of(self@, label@),
    {
        match self.position(label) {
            Some(i) => Some(self.entries[i].1),
            None => None,
        }
    }

    /// Sets the weight of a label and returns the weight it replaced.
    pub fn insert(&mut self, label: String, weight: u32) -> (r: Option<u32>)
        requires
            old(self).wf(),
        ensures
            final(self).wf(),
            final(self)@ == table_insert(old(self)@, label@, weight),
            r == weight_of(old(self)@, label@),
    {
        let ghost l = label@;
        match self.position(&label) {
            Some(i) => {
                let prev = self.entries[i].1;
                self.entries.set(i, (label, weight));
                proof {
                    let k = choose|k: int| label_at(old(self)@, l, k);
                    assert(k == i);
                    assert(self@ =~= old(self)@.update(i as int, (l, weight)));
                    assert forall|a: int, b: int| 0 <= a < b < self@.len() implies
                        #[trigger] self@[a].0 != #[trigger] self@[b].0 by {
                        assert(self@[a].0 == old(self)@[a].0);
                        assert(self@[b].0 == old(self)@[b].0);
                    }
                }
                Some(prev)
            },
            None => {
                self.entries.push((label, weight));
                assert(self@ =~= old(self)@.push((l, weight)));
                assert forall|a: int, b: int| 0 <= a < b < self@.len() implies
                    #[trigger] self@[a].0 != #[trigger] self@[b].0 by {
                    if b == old(self)@.len() {
                        assert(!label_at(old(self)@, l, a));
                    }
                }
                None
            },
        }
    }

    /// A table of the given labels and weights, in order; no label twice.
    pub fn from_entries(entries: &[(&str, u32)]) -> (r: WeightTable)
        requires
            labels_unique(label_views(entries@)),
        ensures
            r.wf(),
            r@ == label_views(entries@),
    {
        let mut r = WeightTable { entries: Vec::new() };
        let mut i: usize = 0;
        while i < entries.len()
            invariant
                i <= entries@.len(),
                labels_unique(label_views(entries@)),
                r.entries@.len() == i,
                r@ == label_views(entries@.subrange(0, i as int)),
            decreases entries@.len() - i,
        {
            let label = entries[i].0;
            let weight = entries[i].1;
            let ghost before = r.entries@;
            let ghost old_view = r@;
            let text = String::from_str(label);
            assert(text@ == entries@[i as int].0@);
            r.entries.push((text, weight));
            assert forall|k: int| 0 <= k <= i implies #[trigger] r@[k] == label_views(entries@.subrange(0, i + 1))[k] by {
                if k < i {
                    assert(r.entries@[k] == before[k]);
                    assert(old_view[k] == label_views(entries@.subrange(0, i as int))[k]);
                } else {
                    assert(r.entries@[k].0@ == entries@[i as int].0@);
                }
            }
            assert(r@ =~= label_views(entries@.subrange(0, i + 1)));
            i = i + 1;
        }
        assert(entries@.subrange(0, entries@.len() as int) =~= entries@);
        r
    }
}

/// What an option value holds, as data.
pub enum ValueModel {
    Value(Seq<char>),
    Table(Seq<(Seq<char>, u32)>),
}

/// An option's value: a fixed text, or a table of weighted choices.
pub enum OptionValue {
    Value(String),
    Table(WeightTable),
}

impl View for OptionValue {
    type V = ValueModel;

    open spec fn view(&self) -> ValueModel {
        match self {
            OptionValue::Value(s) => ValueModel::Value(s@),
            OptionValue::Table(t) => ValueModel::Table(t@),
        }
    }
}

impl OptionValue {
    pub open spec fn wf(&self) -> bool {
        match self {
            OptionValue::Value(_) => true,
            OptionValue::Table(t) => t.wf(),
        }
    }

    /// Sets a weight in a table value and returns the weight it replaced.
    pub fn insert(&mut self, value: String, weight: u32) -> (r: Option<u32>)
        requires
            *old(self) is Table,
            old(self).wf(),
        ensures
            *final(self) is Table,
            final(self).wf(),
            final(self)@ == ValueModel::Table(table_insert(old(self)->Table_0@, value@, weight)),
            r == weight_of(old(self)->Table_0@, value@),
    {
        match self {
            OptionValue::Table(t) => t.insert(value, weight),
            OptionValue::Value(_) => None,
        }
    }
}

/// The options that a trigger sets for one game, by option name, in order.
pub struct OptionGroup {
    pub entries: Vec<(String, OptionValue)>,
}

impl View for OptionGroup {
    type V = Seq<(Seq<char>, ValueModel)>;

    open spec fn view(&self) -> Seq<(Seq<char>, ValueModel)> {
        Seq::new(self.entries@.len(), |i: int| (self.entries@[i].0@, self.entries@[i].1@))
    }
}

impl OptionGroup {
    pub fn new() -> (r: OptionGroup)
        ensures
            r@ == Seq::<(Seq<char>, ValueModel)>::empty(),
    {
        let r = OptionGroup { entries: Vec::new() };
        assert(r@ =~= Seq::<(Seq<char>, ValueModel)>::empty());
        r
    }

    pub fn push(&mut self, name: &str, value: OptionValue)
        ensures
            final(self)@ == old(self)@.push((name@, value@)),
    {
        let ghost v = value@;
        self.entries.push((String::from_str(name), value));
        assert(self@ =~= old(self)@.push((name@, v)));
    }
}

/// What a trigger holds, as data.
pub struct TriggerModel {
    pub category: Seq<char>,
    pub name: Seq<char>,
    pub result: Seq<char>,
    pub options: Seq<(Seq<char>, Seq<(Seq<char>, ValueModel)>)>,
}

pub open spec fn game_name() -> Seq<char> {
    "Guild Wars 2"@
}

/// A conditional override: when option `option_name` of game
/// `option_category` resolves to `option_result`, the nested options apply.
pub struct Trigger {
    pub option_category: String,
    pub option_name: String,
    pub option_result: String,
    pub options: Vec<(String, OptionGroup)>,
}

impl View for Trigger {
    type V = TriggerModel;

    open spec fn view(&self) -> TriggerModel {
        TriggerModel {
            category: self.option_category@,
            name: self.option_name@,
            result: self.option_result@,
            options: Seq::new(self.options@.len(), |i: int| (self.options@[i].0@, self.options@[i].1@)),
        }
    }
}

impl Trigger {
    pub fn new(option_name: String, option_result: String) -> (r: Trigger)
        ensures
            r@ == (TriggerModel {
                category: game_name(),
                name: option_name@,
                result: option_result@,
                options: Seq::empty(),
            }),
    {
        let r = Trigger {
            option_category: String::from_str("Guild Wars 2"),
            option_name,
            option_result,
            options: Vec::new(),
        };
        assert(r@.options =~= Seq::empty());
        r
    }

    /// Appends the options that the trigger sets for a game.
    pub fn push_group(&mut self, game: &str, group: OptionGroup)
        ensures
            final(self)@ == (TriggerModel {
                options: old(self)@.options.push((game@, group@)),
                ..old(self)@
            }),
    {
        let ghost g = group@;
        self.options.push((String::from_str(game), group));
        assert(self@.options =~= old(self)@.options.push((game@, g)));
    }
}

} // verus!
