//! The settings file: TOML as the `config` crate reads it, with `${NAME}`
//! references expanded.

use vstd::prelude::*;

use crate::config::{expand_value, expands_tree, is_env_name, Setting};
use crate::numbers;
use crate::text;
use ::config::{FileFormat, Source, ValueKind};

verus! {

/// A leaf of a settings tree that is not a text.
#[derive(Clone, Debug, PartialEq, Eq)]
pub enum TomlLeaf {
    /// No value.
    Nil,
    /// A truth value.
    Boolean(bool),
    /// A signed integer.
    Signed(i64),
    /// A long signed integer.
    LongSigned(i128),
    /// An unsigned integer.
    Unsigned(u64),
    /// A long unsigned integer.
    LongUnsigned(u128),
    /// A number with a fraction, as it is written.
    Fraction(String),
}

/// The content of a leaf.
pub ghost enum LeafView {
    Nil,
    Boolean(bool),
    Signed(i64),
    LongSigned(i128),
    Unsigned(u64),
    LongUnsigned(u128),
    Fraction(Seq<char>),
}

impl View for TomlLeaf {
    type V = LeafView;

    open spec fn view(&self) -> LeafView {
        match self {
            TomlLeaf::Nil => LeafView::Nil,
            TomlLeaf::Boolean(value) => LeafView::Boolean(*value),
            TomlLeaf::Signed(value) => LeafView::Signed(*value),
            TomlLeaf::LongSigned(value) => LeafView::LongSigned(*value),
            TomlLeaf::Unsigned(value) => LeafView::Unsigned(*value),
            TomlLeaf::LongUnsigned(value) => LeafView::LongUnsigned(*value),
            TomlLeaf::Fraction(value) => LeafView::Fraction(value@),
        }
    }
}

/// What a settings tree holds. A table has no order.
pub ghost enum TomlView {
    Text(Seq<char>),
    Table(Map<Seq<char>, TomlView>),
    List(Seq<TomlView>),
    Leaf(LeafView),
}

/// A settings tree of the `config` crate, opaque but for `toml_of`.
#[verifier::external_body]
pub struct TomlTree {
    inner: ::config::Value,
}

/// One level of a settings tree.
pub enum TomlNode {
    /// A text.
    Text(String),
    /// Named trees, in any order.
    Table(Vec<(String, TomlTree)>),
    /// Trees in order.
    List(Vec<TomlTree>),
    /// No value.
    Nil,
    /// A truth value.
    Boolean(bool),
    /// A signed integer.
    Signed(i64),
    /// A long signed integer.
    LongSigned(i128),
    /// An unsigned integer.
    Unsigned(u64),
    /// A long unsigned integer.
    LongUnsigned(u128),
    /// A number with a fraction, as it is written.
    Fraction(String),
}

/// The contents of a `config::Value`.
pub uninterp spec fn toml_of(tree: TomlTree) -> TomlView;

/// The values under the names at the top of a TOML text, `None` where it cannot be
/// read.
pub uninterp spec fn collected_toml(raw: Seq<char>) -> Option<Map<Seq<char>, TomlView>>;

/// The settings that the `config` crate builds from values that are set one after
/// the other, `None` where it cannot. A name may be a path of steps and subscripts.
pub uninterp spec fn layered_toml(layers: Seq<(Seq<char>, TomlView)>) -> Option<TomlView>;

/// Digits that a subscript in a name may have: a list is as long as its subscripts
/// ask for.
pub const SUBSCRIPT_DIGIT_LIMIT: usize = 6;

/// More digits in a row than a subscript may have.
pub open spec fn is_long_number_at(key: Seq<char>, at: int) -> bool {
    forall|i: int|
        at <= i <= at + SUBSCRIPT_DIGIT_LIMIT ==> numbers::is_digit(#[trigger] key[i])
}

/// Names that ask for no list too long to be made.
pub open spec fn is_settable(key: Seq<char>) -> bool {
    key.contains('[') ==> forall|at: int|
        0 <= at && at + SUBSCRIPT_DIGIT_LIMIT < key.len() ==> !#[trigger] is_long_number_at(key, at)
}

/// The content of named trees.
pub open spec fn layer_views(layers: Seq<(String, TomlTree)>) -> Seq<(Seq<char>, TomlView)> {
    layers.map_values(|layer: (String, TomlTree)| (layer.0@, toml_of(layer.1)))
}

/// `config::File::from_str` and its `collect` on TOML: the values under the names
/// at the top of the text. They depend on the text alone; of the error nothing is
/// said.
#[verifier::external_body]
fn collect_toml(raw: &str) -> (result: Result<TomlTree, String>)
    ensures
        match result {
            Ok(tree) => toml_of(tree) matches TomlView::Table(table) && collected_toml(raw@)
                == Some(table),
            Err(_) => collected_toml(raw@) is None,
        },
{
    ::config::File::from_str(raw, FileFormat::Toml)
        .collect()
        .map(|table| TomlTree { inner: table.into() })
        .map_err(|error| error.to_string())
}

/// `config::ConfigBuilder::build` on named values, each a source of its own: they
/// are set in their order, so the result depends on them alone. Of the error
/// nothing is said. A list is grown to its subscript, which must not be too long.
#[verifier::external_body]
fn layer_toml(layers: Vec<(String, TomlTree)>) -> (result: Result<TomlTree, String>)
    requires
        forall|i: int| 0 <= i < layers@.len() ==> is_settable((#[trigger] layers@[i]).0@),
    ensures
        match result {
            Ok(tree) => layered_toml(layer_views(layers@)) == Some(toml_of(tree)),
            Err(_) => layered_toml(layer_views(layers@)) is None,
        },
{
    let source = |(key, tree): (String, TomlTree)| {
        let mut layer = ::config::Config::default();
        layer.cache = ::config::Map::from([(key, tree.inner)]).into();
        layer
    };
    ::config::Config::builder()
        .add_source(layers.into_iter().map(source).collect::<Vec<_>>())
        .build()
        .map(|settings| TomlTree { inner: settings.cache })
        .map_err(|error| error.to_string())
}

/// The entries of a table: every name once, in any order, with its tree.
pub open spec fn lists_table(
    entries: Seq<(String, TomlTree)>,
    table: Map<Seq<char>, TomlView>,
) -> bool {
    &&& forall|i: int, j: int|
        0 <= i < j < entries.len() ==> (#[trigger] entries[i]).0@ != (#[trigger] entries[j]).0@
    &&& forall|i: int|
        0 <= i < entries.len() ==> table.contains_key((#[trigger] entries[i]).0@)
            && table[entries[i].0@] == toml_of(entries[i].1)
    &&& forall|key: Seq<char>| #[trigger]
        table.contains_key(key) ==> exists|i: int|
            0 <= i < entries.len() && (#[trigger] entries[i]).0@ == key
    &&& table.dom().finite()
}

/// The contents of a list of trees.
pub open spec fn tomls(trees: Seq<TomlTree>) -> Seq<TomlView> {
    trees.map_values(|tree: TomlTree| toml_of(tree))
}

/// `config::Value::kind`: one level of a tree. A table is walked in no
/// particular order.
#[verifier::external_body]
fn open_tree(tree: TomlTree) -> (node: TomlNode)
    ensures
        match node {
            TomlNode::Text(value) => toml_of(tree) == TomlView::Text(value@),
            TomlNode::Table(entries) => toml_of(tree) matches TomlView::Table(table)
                && lists_table(entries@, table),
            TomlNode::List(children) => toml_of(tree) == TomlView::List(tomls(children@)),
            TomlNode::Nil => toml_of(tree) == TomlView::Leaf(LeafView::Nil),
            TomlNode::Boolean(value) => toml_of(tree) == TomlView::Leaf(LeafView::Boolean(value)),
            TomlNode::Signed(value) => toml_of(tree) == TomlView::Leaf(LeafView::Signed(value)),
            TomlNode::LongSigned(value) => toml_of(tree) == TomlView::Leaf(
                LeafView::LongSigned(value),
            ),
            TomlNode::Unsigned(value) => toml_of(tree) == TomlView::Leaf(
                LeafView::Unsigned(value),
            ),
            TomlNode::LongUnsigned(value) => toml_of(tree) == TomlView::Leaf(
                LeafView::LongUnsigned(value),
            ),
            TomlNode::Fraction(value) => toml_of(tree) == TomlView::Leaf(
                LeafView::Fraction(value@),
            ),
        },
{
    let wrap = |inner| TomlTree { inner };
    match tree.inner.kind {
        ValueKind::String(value) => TomlNode::Text(value),
        ValueKind::Table(table) => TomlNode::Table(table.into_iter().map(|(k, v)| (k, wrap(v))).collect()),
        ValueKind::Array(values) => TomlNode::List(values.into_iter().map(wrap).collect()),
        ValueKind::Nil => TomlNode::Nil,
        ValueKind::Boolean(value) => TomlNode::Boolean(value),
        ValueKind::I64(value) => TomlNode::Signed(value),
        ValueKind::I128(value) => TomlNode::LongSigned(value),
        ValueKind::U64(value) => TomlNode::Unsigned(value),
        ValueKind::U128(value) => TomlNode::LongUnsigned(value),
        ValueKind::Float(value) => TomlNode::Fraction(value.to_string()),
    }
}

/// A tree of settings holds what a view says, its tables in any order.
pub open spec fn represents(setting: Setting<TomlLeaf>, view: TomlView) -> bool
    decreases setting,
{
    match (setting, view) {
        (Setting::Text(value), TomlView::Text(expected)) => value@ == expected,
        (Setting::Table(entries), TomlView::Table(table)) => {
            &&& forall|i: int, j: int|
                0 <= i < j < entries@.len() ==> (#[trigger] entries@[i]).0@ != (
                #[trigger] entries@[j]).0@
            &&& forall|i: int|
                #![trigger entries@[i]]
                0 <= i < entries@.len() ==> table.contains_key(entries@[i].0@) && represents(
                    entries@[i].1,
                    table[entries@[i].0@],
                )
            &&& forall|key: Seq<char>| #[trigger]
                table.contains_key(key) ==> exists|i: int|
                    0 <= i < entries@.len() && (#[trigger] entries@[i]).0@ == key
        },
        (Setting::List(values), TomlView::List(expected)) => {
            &&& values@.len() == expected.len()
            &&& forall|i: int|
                #![trigger values@[i]]
                0 <= i < values@.len() ==> represents(values@[i], expected[i])
        },
        (Setting::Other(leaf), TomlView::Leaf(expected)) => leaf@ == expected,
        _ => false,
    }
}

/// Reads a settings tree.
pub fn read_tree(tree: TomlTree) -> (setting: Setting<TomlLeaf>)
    ensures
        represents(setting, toml_of(tree)),
    decreases toml_of(tree),
{
    let ghost view = toml_of(tree);
    match open_tree(tree) {
        TomlNode::Text(value) => Setting::Text(value),
        TomlNode::Table(entries) => {
            let ghost table = view->Table_0;
            let ghost all = entries@;
            let mut entries = entries;
            let mut output: Vec<(String, Setting<TomlLeaf>)> = Vec::new();
            while entries.len() > 0
                invariant
                    view == toml_of(tree),
                    view == TomlView::Table(table),
                    lists_table(all, table),
                    output@.len() + entries@.len() == all.len(),
                    forall|i: int|
                        0 <= i < entries@.len() ==> #[trigger] entries@[i] == all[i
                            + output@.len()],
                    forall|i: int|
                        0 <= i < output@.len() ==> (#[trigger] output@[i]).0@ == all[i].0@
                            && represents(output@[i].1, table[all[i].0@]),
                decreases entries@.len(),
            {
                let ghost at = output@.len() as int;
                let (key, child) = entries.remove(0);
                assert(all[at] == (key, child));
                assert(table.contains_key(key@));
                assert(decreases_to!(table => table[key@]));
                assert(decreases_to!(view => view->Table_0));
                let read = read_tree(child);
                output.push((key, read));
            }
            let setting = Setting::Table(output);
            assert forall|key: Seq<char>| #[trigger] table.contains_key(key) implies exists|i: int|
                0 <= i < output@.len() && (#[trigger] output@[i]).0@ == key by {
                let i = choose|i: int| 0 <= i < all.len() && (#[trigger] all[i]).0@ == key;
                assert(output@[i].0@ == key);
            }
            assert forall|i: int| 0 <= i < output@.len() implies table.contains_key(
                (#[trigger] output@[i]).0@,
            ) && represents(output@[i].1, table[output@[i].0@]) by {
                assert(table.contains_key(all[i].0@));
            }
            assert forall|i: int, j: int| 0 <= i < j < output@.len() implies (
            #[trigger] output@[i]).0@ != (#[trigger] output@[j]).0@ by {
                assert(all[i].0@ != all[j].0@);
            }
            assert(setting->Table_0@ == output@);
            assert(view->Table_0 == table);
            assert(represents(setting, view));
            setting
        },
        TomlNode::List(children) => {
            let ghost views = tomls(children@);
            let ghost all = children@;
            let mut children = children;
            let mut output: Vec<Setting<TomlLeaf>> = Vec::new();
            while children.len() > 0
                invariant
                    view == toml_of(tree),
                    view == TomlView::List(views),
                    views == tomls(all),
                    output@.len() + children@.len() == all.len(),
                    forall|i: int|
                        0 <= i < children@.len() ==> #[trigger] children@[i] == all[i
                            + output@.len()],
                    forall|i: int|
                        0 <= i < output@.len() ==> represents(#[trigger] output@[i], views[i]),
                decreases children@.len(),
            {
                let ghost at = output@.len() as int;
                let child = children.remove(0);
                assert(all[at] == child);
                assert(views[at] == toml_of(child));
                assert(decreases_to!(views => views[at]));
                assert(decreases_to!(view => view->List_0));
                let read = read_tree(child);
                output.push(read);
            }
            let setting = Setting::List(output);
            assert(represents(setting, view));
            setting
        },
        TomlNode::Nil => Setting::Other(TomlLeaf::Nil),
        TomlNode::Boolean(value) => Setting::Other(TomlLeaf::Boolean(value)),
        TomlNode::Signed(value) => Setting::Other(TomlLeaf::Signed(value)),
        TomlNode::LongSigned(value) => Setting::Other(TomlLeaf::LongSigned(value)),
        TomlNode::Unsigned(value) => Setting::Other(TomlLeaf::Unsigned(value)),
        TomlNode::LongUnsigned(value) => Setting::Other(TomlLeaf::LongUnsigned(value)),
        TomlNode::Fraction(value) => Setting::Other(TomlLeaf::Fraction(value)),
    }
}

/// Named trees whose names increase.
pub open spec fn names_increase(layers: Seq<(String, TomlTree)>) -> bool {
    forall|i: int, j: int|
        0 <= i < j < layers.len() ==> text::precedes(
            (#[trigger] layers[i]).0@,
            (#[trigger] layers[j]).0@,
        )
}

/// The entries of a table in the order of their names.
pub open spec fn in_order(
    layers: Seq<(Seq<char>, TomlView)>,
    table: Map<Seq<char>, TomlView>,
) -> bool {
    &&& forall|i: int, j: int|
        0 <= i < j < layers.len() ==> text::precedes(
            (#[trigger] layers[i]).0,
            (#[trigger] layers[j]).0,
        )
    &&& forall|i: int|
        0 <= i < layers.len() ==> table.contains_pair((#[trigger] layers[i]).0, layers[i].1)
    &&& forall|key: Seq<char>| #[trigger]
        table.contains_key(key) ==> exists|i: int|
            0 <= i < layers.len() && (#[trigger] layers[i]).0 == key
}

fn place(layers: &mut Vec<(String, TomlTree)>, layer: (String, TomlTree)) -> (at: usize)
    requires
        names_increase(old(layers)@),
        forall|i: int| 0 <= i < old(layers)@.len() ==> (#[trigger] old(layers)@[i]).0@ != layer.0@,
    ensures
        at <= old(layers)@.len(),
        final(layers)@ == old(layers)@.insert(at as int, layer),
        names_increase(final(layers)@),
{
    let ghost before = layers@;
    let mut at: usize = 0;
    while at < layers.len() && !text::comes_before(layer.0.as_str(), layers[at].0.as_str())
        invariant
            at <= layers@.len(),
            layers@ == before,
            forall|i: int| 0 <= i < before.len() ==> (#[trigger] before[i]).0@ != layer.0@,
            forall|i: int| 0 <= i < at ==> text::precedes((#[trigger] before[i]).0@, layer.0@),
        decreases layers@.len() - at,
    {
        proof {
            text::lemma_precedes_total(layer.0@, before[at as int].0@);
        }
        at += 1;
    }
    layers.insert(at, layer);
    proof {
        let after = layers@;
        assert forall|i: int, j: int| 0 <= i < j < after.len() implies text::precedes(
            (#[trigger] after[i]).0@,
            (#[trigger] after[j]).0@,
        ) by {
            if i == at && j > at + 1 {
                text::lemma_precedes_transitive(layer.0@, before[at as int].0@, before[j - 1].0@);
            }
        }
    }
    at
}

proof fn lemma_inserted<A>(s: Seq<A>, at: int, added: A, any: A)
    requires
        0 <= at <= s.len(),
    ensures
        s.insert(at, added).contains(any) <==> s.contains(any) || any == added,
{
    let after = s.insert(at, added);
    assert(after[at] == added);
    if s.contains(any) {
        let i = s.index_of(any);
        assert(after[if i < at { i } else { i + 1 }] == any);
    }
    if after.contains(any) && any != added {
        let i = after.index_of(any);
        assert(s[if i < at { i } else { i - 1 }] == any);
    }
}

fn order_entries(
    entries: Vec<(String, TomlTree)>,
    Ghost(table): Ghost<Map<Seq<char>, TomlView>>,
) -> (layers: Vec<(String, TomlTree)>)
    requires
        lists_table(entries@, table),
    ensures
        in_order(layer_views(layers@), table),
{
    let ghost all = entries@;
    let ghost mut done: int = 0;
    let mut entries = entries;
    let mut layers: Vec<(String, TomlTree)> = Vec::new();
    while entries.len() > 0
        invariant
            lists_table(all, table),
            0 <= done <= all.len(),
            entries@ == all.skip(done),
            names_increase(layers@),
            forall|any: (String, TomlTree)| #[trigger]
                layers@.contains(any) <==> all.take(done).contains(any),
        decreases entries@.len(),
    {
        let ghost before = layers@;
        assert(entries@[0] == all[done]);
        let entry = entries.remove(0);
        assert(entries@ =~= all.skip(done + 1));
        assert forall|i: int| 0 <= i < before.len() implies (#[trigger] before[i]).0@
            != entry.0@ by {
            assert(before.contains(before[i]));
            let j = all.take(done).index_of(before[i]);
            assert(all[j].0@ != all[done].0@);
        }
        let ghost added = entry;
        let at = place(&mut layers, entry);
        proof {
            assert(all.take(done + 1) =~= all.take(done).insert(done, added));
            assert forall|any: (String, TomlTree)| #[trigger]
                layers@.contains(any) <==> all.take(done + 1).contains(any) by {
                lemma_inserted(before, at as int, added, any);
                lemma_inserted(all.take(done), done, added, any);
            }
            done = done + 1;
        }
    }
    proof {
        assert(all.take(done) =~= all);
        lemma_ordered(all, layers@, table);
    }
    layers
}

proof fn lemma_ordered(
    all: Seq<(String, TomlTree)>,
    layers: Seq<(String, TomlTree)>,
    table: Map<Seq<char>, TomlView>,
)
    requires
        lists_table(all, table),
        names_increase(layers),
        forall|any: (String, TomlTree)| #[trigger] layers.contains(any) <==> all.contains(any),
    ensures
        in_order(layer_views(layers), table),
{
    let views = layer_views(layers);
    assert forall|i: int| 0 <= i < views.len() implies table.contains_pair(
        (#[trigger] views[i]).0,
        views[i].1,
    ) by {
        assert(layers.contains(layers[i]));
        let j = all.index_of(layers[i]);
        assert(table.contains_key(all[j].0@));
    }
    assert forall|key: Seq<char>| #[trigger] table.contains_key(key) implies exists|i: int|
        0 <= i < views.len() && (#[trigger] views[i]).0 == key by {
        let j = choose|j: int| 0 <= j < all.len() && (#[trigger] all[j]).0@ == key;
        assert(all.contains(all[j]));
        assert(layers.contains(all[j]));
        let i = layers.index_of(all[j]);
        assert(views[i].0 == key);
    }
    assert forall|i: int, j: int| 0 <= i < j < views.len() implies text::precedes(
        (#[trigger] views[i]).0,
        (#[trigger] views[j]).0,
    ) by {
        assert(text::precedes(layers[i].0@, layers[j].0@));
    }
}

/// Checks that a name asks for no list too long to be made.
pub fn settable(key: &str) -> (result: bool)
    ensures
        result == is_settable(key@),
{
    let chars = text::chars_of(key);
    let bracket = text::find_char(&chars, '[', 0);
    if bracket == chars.len() {
        assert forall|i: int| 0 <= i < key@.len() implies key@[i] != '[' by {
            assert(chars@[i] != '[');
        }
        return true;
    }
    assert(key@.contains('[')) by {
        assert(key@[bracket as int] == '[');
    }
    let mut run: usize = 0;
    let mut i: usize = 0;
    while i < chars.len()
        invariant
            i <= chars@.len(),
            chars@ == key@,
            key@.contains('['),
            run <= i,
            run <= SUBSCRIPT_DIGIT_LIMIT,
            forall|k: int| i - run <= k < i ==> numbers::is_digit(#[trigger] key@[k]),
            run < i ==> !numbers::is_digit(key@[i - run - 1]),
            forall|at: int|
                0 <= at && at + SUBSCRIPT_DIGIT_LIMIT < i ==> !#[trigger] is_long_number_at(
                    key@,
                    at,
                ),
        decreases chars@.len() - i,
    {
        let c: char = chars[i];
        if '0' <= c && c <= '9' {
            if run == SUBSCRIPT_DIGIT_LIMIT {
                assert(is_long_number_at(key@, i - SUBSCRIPT_DIGIT_LIMIT));
                return false;
            }
            run += 1;
            assert forall|at: int|
                0 <= at && at + SUBSCRIPT_DIGIT_LIMIT < i + 1 implies !#[trigger] is_long_number_at(
                key@,
                at,
            ) by {
                if at + SUBSCRIPT_DIGIT_LIMIT == i {
                    assert(!numbers::is_digit(key@[i + 1 - run - 1]));
                }
            }
        } else {
            run = 0;
            assert forall|at: int|
                0 <= at && at + SUBSCRIPT_DIGIT_LIMIT < i + 1 implies !#[trigger] is_long_number_at(
                key@,
                at,
            ) by {
                if at + SUBSCRIPT_DIGIT_LIMIT == i {
                    assert(!numbers::is_digit(key@[i as int]));
                }
            }
        }
        i += 1;
    }
    true
}

fn all_settable(layers: &Vec<(String, TomlTree)>) -> (result: bool)
    ensures
        result == forall|i: int| 0 <= i < layers@.len() ==> is_settable((#[trigger] layers@[i]).0@),
{
    let mut i: usize = 0;
    while i < layers.len()
        invariant
            i <= layers@.len(),
            forall|j: int| 0 <= j < i ==> is_settable((#[trigger] layers@[j]).0@),
        decreases layers@.len() - i,
    {
        if !settable(layers[i].0.as_str()) {
            assert(!is_settable(layers@[i as int].0@));
            return false;
        }
        i += 1;
    }
    true
}

/// A tree is a view with every reference expanded.
pub open spec fn expands_toml<F: Fn(&str) -> Option<String>>(
    lookup: F,
    view: TomlView,
    after: Setting<TomlLeaf>,
) -> bool {
    exists|before: Setting<TomlLeaf>|
        #![trigger represents(before, view)]
        represents(before, view) && expands_tree(lookup, before, after)
}

/// Why a settings text cannot be used.
#[derive(Clone, Debug, PartialEq, Eq)]
pub enum SettingsProblem {
    /// It cannot be read, for this reason.
    Unreadable(String),
    /// A name at its top asks for a list too long to be made.
    ListTooLong,
}

/// What the values at the top of a settings text lead to, set in the order of
/// their names.
pub open spec fn is_built<F: Fn(&str) -> Option<String>>(
    lookup: F,
    table: Map<Seq<char>, TomlView>,
    result: Result<Setting<TomlLeaf>, SettingsProblem>,
) -> bool {
    if exists|key: Seq<char>| #[trigger] table.contains_key(key) && !is_settable(key) {
        result matches Err(SettingsProblem::ListTooLong)
    } else {
        exists|layers: Seq<(Seq<char>, TomlView)>| #[trigger]
            in_order(layers, table) && match layered_toml(layers) {
                None => result matches Err(SettingsProblem::Unreadable(_)),
                Some(view) => result matches Ok(setting) && expands_toml(lookup, view, setting),
            }
    }
}

/// Parses settings from an in-memory TOML string and expands their references.
/// Names at the top may be paths; they are set in their order, so that where two
/// of them set one setting the later name counts.
pub fn parse_settings<F>(raw: &str, lookup: &F) -> (result: Result<
    Setting<TomlLeaf>,
    SettingsProblem,
>)
    where F: Fn(&str) -> Option<String>
    requires
        forall|name: &str| is_env_name(name@) ==> #[trigger] lookup.requires((name,)),
    ensures
        match collected_toml(raw@) {
            None => result matches Err(SettingsProblem::Unreadable(_)),
            Some(table) => is_built(*lookup, table, result),
        },
{
    let collected = match collect_toml(raw) {
        Ok(tree) => tree,
        Err(reason) => {
            return Err(SettingsProblem::Unreadable(reason));
        },
    };
    let ghost table = toml_of(collected)->Table_0;
    let entries = match open_tree(collected) {
        TomlNode::Table(entries) => entries,
        _ => {
            return Err(SettingsProblem::Unreadable(String::new()));
        },
    };
    let layers = order_entries(entries, Ghost(table));
    let ghost views = layer_views(layers@);
    if !all_settable(&layers) {
        proof {
            let i = choose|i: int|
                0 <= i < layers@.len() && !is_settable((#[trigger] layers@[i]).0@);
            assert(table.contains_pair(views[i].0, views[i].1));
        }
        return Err(SettingsProblem::ListTooLong);
    }
    assert forall|key: Seq<char>| #[trigger] table.contains_key(key) implies is_settable(key) by {
        let i = choose|i: int| 0 <= i < views.len() && (#[trigger] views[i]).0 == key;
        assert(is_settable(layers@[i].0@));
    }
    match layer_toml(layers) {
        Ok(tree) => {
            let before = read_tree(tree);
            let after = expand_value(before, lookup);
            assert(expands_tree(*lookup, before, after));
            assert(in_order(views, table));
            Ok(after)
        },
        Err(reason) => {
            assert(in_order(views, table));
            Err(SettingsProblem::Unreadable(reason))
        },
    }
}

} // verus!
