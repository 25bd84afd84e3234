//! The test registry and the target manifests.
//!
//! A registry lists the tests: `[[test]]` entries with an `id`, `tags` and a
//! `description`. A manifest file declares every target as a `[target.<id>]` table,
//! with the tags it does not support and the tests it is expected to fail. Either kind
//! of entry may be scoped to some environments.

use vstd::prelude::*;

use crate::document::{
    entry, held_all, held_entries, list_of, read_toml, table_of, take_entry, text_of, toml_held,
    toml_read, Node,
};
use crate::json::opt_view;
use crate::text::{same, views};

verus! {

// ----- the registry --------------------------------------------------------------------

/// A registered test.
#[derive(Debug, Clone)]
pub struct RegisteredTest {
    pub id: String,
    pub tags: Vec<String>,
    pub description: String,
}

/// A registered test.
pub struct TestView {
    pub id: Seq<char>,
    pub tags: Seq<Seq<char>>,
    pub description: Seq<char>,
}

impl View for RegisteredTest {
    type V = TestView;

    open spec fn view(&self) -> TestView {
        TestView { id: self.id@, tags: views(self.tags@), description: self.description@ }
    }
}

/// The registered tests.
#[derive(Debug, Clone)]
pub struct Registry {
    pub tests: Vec<RegisteredTest>,
}

/// Each registered test.
pub open spec fn test_views(tests: Seq<RegisteredTest>) -> Seq<TestView> {
    tests.map_values(|t: RegisteredTest| t@)
}

impl View for Registry {
    type V = Seq<TestView>;

    open spec fn view(&self) -> Seq<TestView> {
        test_views(self.tests@)
    }
}

/// Whether a test is registered.
pub open spec fn is_registered(tests: Seq<TestView>, id: Seq<char>) -> bool {
    exists|i: int| 0 <= i < tests.len() && (#[trigger] tests[i]).id == id
}

// ----- manifests -----------------------------------------------------------------------

/// A tag a target does not support.
#[derive(Debug, Clone)]
pub struct Unsupported {
    pub tag: String,
    pub reason: String,
    /// The environments the entry is scoped to; none if it holds in every one.
    pub environments: Option<Vec<String>>,
}

/// A tag a target does not support.
pub struct UnsupportedView {
    pub tag: Seq<char>,
    pub reason: Seq<char>,
    pub environments: Option<Seq<Seq<char>>>,
}

/// A test a target is expected to fail.
#[derive(Debug, Clone)]
pub struct ExpectedFail {
    pub test: String,
    pub reason: String,
    pub tracking: String,
    /// The environments the entry is scoped to; none if it holds in every one.
    pub environments: Option<Vec<String>>,
}

/// A test a target is expected to fail.
pub struct ExpectedFailView {
    pub test: Seq<char>,
    pub reason: Seq<char>,
    pub tracking: Seq<char>,
    pub environments: Option<Seq<Seq<char>>>,
}

/// The policy for one target.
#[derive(Debug, Clone)]
pub struct Manifest {
    pub target: String,
    pub unsupported: Vec<Unsupported>,
    pub expected_fail: Vec<ExpectedFail>,
}

/// The policy for one target.
pub struct ManifestView {
    pub target: Seq<char>,
    pub unsupported: Seq<UnsupportedView>,
    pub expected_fail: Seq<ExpectedFailView>,
}

/// The environments of a scope.
pub open spec fn scope_view(scope: Option<Vec<String>>) -> Option<Seq<Seq<char>>> {
    match scope {
        Some(list) => Some(views(list@)),
        None => None,
    }
}

impl View for Unsupported {
    type V = UnsupportedView;

    open spec fn view(&self) -> UnsupportedView {
        UnsupportedView {
            tag: self.tag@,
            reason: self.reason@,
            environments: scope_view(self.environments),
        }
    }
}

impl View for ExpectedFail {
    type V = ExpectedFailView;

    open spec fn view(&self) -> ExpectedFailView {
        ExpectedFailView {
            test: self.test@,
            reason: self.reason@,
            tracking: self.tracking@,
            environments: scope_view(self.environments),
        }
    }
}

/// Each entry.
pub open spec fn unsupported_views(list: Seq<Unsupported>) -> Seq<UnsupportedView> {
    list.map_values(|u: Unsupported| u@)
}

/// Each entry.
pub open spec fn expected_views(list: Seq<ExpectedFail>) -> Seq<ExpectedFailView> {
    list.map_values(|x: ExpectedFail| x@)
}

impl View for Manifest {
    type V = ManifestView;

    open spec fn view(&self) -> ManifestView {
        ManifestView {
            target: self.target@,
            unsupported: unsupported_views(self.unsupported@),
            expected_fail: expected_views(self.expected_fail@),
        }
    }
}

/// Each manifest.
pub open spec fn manifest_views(list: Seq<Manifest>) -> Seq<ManifestView> {
    list.map_values(|m: Manifest| m@)
}

// ----- what a document declares --------------------------------------------------------

/// The text of an entry that has to be one.
pub open spec fn text_at(table: Seq<(Seq<char>, Node)>, key: Seq<char>) -> Option<Seq<char>> {
    match entry(table, key) {
        Some(Node::Text(text)) => Some(text),
        _ => None,
    }
}

/// The texts of a list, if it holds nothing else.
pub open spec fn texts_in(nodes: Seq<Node>) -> Option<Seq<Seq<char>>>
    decreases nodes.len(),
{
    if nodes.len() == 0 {
        Some(Seq::empty())
    } else {
        match (texts_in(nodes.drop_last()), nodes.last()) {
            (Some(texts), Node::Text(text)) => Some(texts.push(text)),
            _ => None,
        }
    }
}

/// The error for an entry that does not have the members it needs.
pub open spec fn malformed(what: Seq<char>) -> Seq<char> {
    "malformed "@ + what
}

/// The scope of an entry, or what is wrong with it: an empty list would scope the entry
/// to nowhere, and is refused.
pub open spec fn declared_scope(table: Seq<(Seq<char>, Node)>) -> Result<
    Option<Seq<Seq<char>>>,
    Seq<char>,
> {
    match entry(table, "environments"@) {
        None => Ok(None),
        Some(Node::List(nodes)) => match texts_in(nodes) {
            None => Err(malformed("environments"@)),
            Some(list) => if list.len() == 0 {
                Err("empty environments list"@)
            } else {
                Ok(Some(list))
            },
        },
        Some(_) => Err(malformed("environments"@)),
    }
}

/// The registered test an entry declares.
pub open spec fn declared_test(node: Node) -> Result<TestView, Seq<char>> {
    match node {
        Node::Table(table) => match (
            text_at(table, "id"@),
            entry(table, "tags"@),
            text_at(table, "description"@),
        ) {
            (Some(id), Some(Node::List(nodes)), Some(description)) => match texts_in(nodes) {
                Some(tags) => Ok(TestView { id, tags, description }),
                None => Err(malformed("test entry"@)),
            },
            _ => Err(malformed("test entry"@)),
        },
        _ => Err(malformed("test entry"@)),
    }
}

/// The unsupported tag an entry declares.
pub open spec fn declared_unsupported(node: Node) -> Result<UnsupportedView, Seq<char>> {
    match node {
        Node::Table(table) => match (text_at(table, "tag"@), text_at(table, "reason"@)) {
            (Some(tag), Some(reason)) => match declared_scope(table) {
                Ok(environments) => Ok(UnsupportedView { tag, reason, environments }),
                Err(error) => Err(error),
            },
            _ => Err(malformed("unsupported entry"@)),
        },
        _ => Err(malformed("unsupported entry"@)),
    }
}

/// The expected failure an entry declares.
pub open spec fn declared_expected(node: Node) -> Result<ExpectedFailView, Seq<char>> {
    match node {
        Node::Table(table) => match (
            text_at(table, "test"@),
            text_at(table, "reason"@),
            text_at(table, "tracking"@),
        ) {
            (Some(test), Some(reason), Some(tracking)) => match declared_scope(table) {
                Ok(environments) => Ok(ExpectedFailView { test, reason, tracking, environments }),
                Err(error) => Err(error),
            },
            _ => Err(malformed("expected-fail entry"@)),
        },
        _ => Err(malformed("expected-fail entry"@)),
    }
}

/// The tests a list declares; the first entry that declares none is the error.
pub open spec fn declared_tests(nodes: Seq<Node>) -> Result<Seq<TestView>, Seq<char>>
    decreases nodes.len(),
{
    if nodes.len() == 0 {
        Ok(Seq::empty())
    } else {
        match declared_tests(nodes.drop_last()) {
            Err(error) => Err(error),
            Ok(list) => match declared_test(nodes.last()) {
                Err(error) => Err(error),
                Ok(one) => Ok(list.push(one)),
            },
        }
    }
}

/// The unsupported tags a list declares.
pub open spec fn declared_unsupporteds(nodes: Seq<Node>) -> Result<Seq<UnsupportedView>, Seq<char>>
    decreases nodes.len(),
{
    if nodes.len() == 0 {
        Ok(Seq::empty())
    } else {
        match declared_unsupporteds(nodes.drop_last()) {
            Err(error) => Err(error),
            Ok(list) => match declared_unsupported(nodes.last()) {
                Err(error) => Err(error),
                Ok(one) => Ok(list.push(one)),
            },
        }
    }
}

/// The expected failures a list declares.
pub open spec fn declared_expecteds(nodes: Seq<Node>) -> Result<Seq<ExpectedFailView>, Seq<char>>
    decreases nodes.len(),
{
    if nodes.len() == 0 {
        Ok(Seq::empty())
    } else {
        match declared_expecteds(nodes.drop_last()) {
            Err(error) => Err(error),
            Ok(list) => match declared_expected(nodes.last()) {
                Err(error) => Err(error),
                Ok(one) => Ok(list.push(one)),
            },
        }
    }
}

/// The entries of a target's list of some kind; none if it has no such list.
pub open spec fn listed(table: Seq<(Seq<char>, Node)>, key: Seq<char>) -> Result<
    Seq<Node>,
    Seq<char>,
> {
    match entry(table, key) {
        None => Ok(Seq::empty()),
        Some(Node::List(nodes)) => Ok(nodes),
        Some(_) => Err(malformed(key)),
    }
}

/// The manifest a target's table declares.
pub open spec fn declared_manifest(target: Seq<char>, node: Node) -> Result<
    ManifestView,
    Seq<char>,
> {
    match node {
        Node::Table(table) => match listed(table, "unsupported"@) {
            Err(error) => Err(error),
            Ok(unsupported_nodes) => match declared_unsupporteds(unsupported_nodes) {
                Err(error) => Err(error),
                Ok(unsupported) => match listed(table, "expected-fail"@) {
                    Err(error) => Err(error),
                    Ok(expected_nodes) => match declared_expecteds(expected_nodes) {
                        Err(error) => Err(error),
                        Ok(expected_fail) => Ok(
                            ManifestView { target, unsupported, expected_fail },
                        ),
                    },
                },
            },
        },
        _ => Err(malformed("target"@)),
    }
}

/// The manifests some targets declare, in their order.
pub open spec fn declared_manifests(targets: Seq<(Seq<char>, Node)>) -> Result<
    Seq<ManifestView>,
    Seq<char>,
>
    decreases targets.len(),
{
    if targets.len() == 0 {
        Ok(Seq::empty())
    } else {
        match declared_manifests(targets.drop_last()) {
            Err(error) => Err(error),
            Ok(list) => match declared_manifest(targets.last().0, targets.last().1) {
                Err(error) => Err(error),
                Ok(one) => Ok(list.push(one)),
            },
        }
    }
}

/// The registry a text declares.
pub open spec fn registry_in(text: Seq<char>) -> Result<Seq<TestView>, Seq<char>> {
    match toml_read(text) {
        Err(error) => Err(error),
        Ok(Node::Table(table)) => match entry(table, "test"@) {
            Some(Node::List(nodes)) => declared_tests(nodes),
            _ => Err(malformed("registry"@)),
        },
        Ok(_) => Err(malformed("registry"@)),
    }
}

/// The manifests a text declares.
pub open spec fn manifests_in(text: Seq<char>) -> Result<Seq<ManifestView>, Seq<char>> {
    match toml_read(text) {
        Err(error) => Err(error),
        Ok(Node::Table(table)) => match entry(table, "target"@) {
            Some(Node::Table(targets)) => declared_manifests(targets),
            _ => Err(malformed("manifests"@)),
        },
        Ok(_) => Err(malformed("manifests"@)),
    }
}

// ----- reading -------------------------------------------------------------------------

fn malformed_text(what: &str) -> (r: String)
    ensures
        r@ == malformed(what@),
{
    "malformed ".to_owned().concat(what)
}

fn take_text(table: &mut Vec<(String, toml::Value)>, key: &str) -> (r: Option<String>)
    ensures
        opt_view(r) == text_at(held_entries(old(table)@), key@),
        forall|other: Seq<char>|
            other != key@ ==> #[trigger] entry(held_entries(final(table)@), other) == entry(
                held_entries(old(table)@),
                other,
            ),
{
    match take_entry(table, key) {
        Some(value) => text_of(value),
        None => None,
    }
}

proof fn lemma_held_rest(values: Seq<toml::Value>)
    requires
        values.len() > 0,
    ensures
        held_all(values.remove(0)) == held_all(values).skip(1),
{
    assert(held_all(values.remove(0)) =~= held_all(values).skip(1));
}

proof fn lemma_entries_rest(table: Seq<(String, toml::Value)>)
    requires
        table.len() > 0,
    ensures
        held_entries(table.remove(0)) == held_entries(table).skip(1),
{
    assert(held_entries(table.remove(0)) =~= held_entries(table).skip(1));
}

fn read_texts(values: Vec<toml::Value>) -> (r: Option<Vec<String>>)
    ensures
        scope_view(r) == texts_in(held_all(values@)),
{
    let ghost nodes = held_all(values@);
    let mut left = values;
    let mut texts: Vec<String> = Vec::new();
    let ghost mut k: int = 0;
    assert(nodes.take(0) =~= Seq::<Node>::empty());
    assert(views(texts@) =~= Seq::<Seq<char>>::empty());
    assert(held_all(left@) =~= nodes.skip(0));
    while left.len() > 0
        invariant
            0 <= k <= nodes.len(),
            left@.len() == nodes.len() - k,
            held_all(left@) == nodes.skip(k),
            texts_in(nodes.take(k)) == Some(views(texts@)),
            nodes == held_all(values@),
        decreases left@.len(),
    {
        let ghost was = views(texts@);
        proof {
            lemma_held_rest(left@);
        }
        assert(held_all(left@)[0] == nodes[k]);
        let value = left.remove(0);
        assert(nodes.skip(k).skip(1) =~= nodes.skip(k + 1));
        assert(nodes.take(k + 1).drop_last() =~= nodes.take(k));
        assert(nodes.take(k + 1).last() == nodes[k]);
        match text_of(value) {
            Some(text) => {
                texts.push(text);
                assert(views(texts@) =~= was.push(text@));
            },
            None => {
                proof {
                    lemma_texts_prefix(nodes, k + 1);
                }
                return None;
            },
        }
        proof {
            k = k + 1;
        }
    }
    assert(nodes.take(k) =~= nodes);
    Some(texts)
}

proof fn lemma_texts_prefix(nodes: Seq<Node>, n: int)
    requires
        0 <= n <= nodes.len(),
        texts_in(nodes.take(n)) is None,
    ensures
        texts_in(nodes) is None,
    decreases nodes.len() - n,
{
    if n < nodes.len() {
        assert(nodes.take(n + 1).drop_last() =~= nodes.take(n));
        lemma_texts_prefix(nodes, n + 1);
    } else {
        assert(nodes.take(n) =~= nodes);
    }
}

fn take_scope(table: &mut Vec<(String, toml::Value)>) -> (r: Result<Option<Vec<String>>, String>)
    ensures
        match r {
            Ok(scope) => declared_scope(held_entries(old(table)@)) == Ok::<_, Seq<char>>(
                scope_view(scope),
            ),
            Err(error) => declared_scope(held_entries(old(table)@)) == Err::<
                Option<Seq<Seq<char>>>,
                _,
            >(error@),
        },
{
    match take_entry(table, "environments") {
        None => Ok(None),
        Some(value) => match list_of(value) {
            None => Err(malformed_text("environments")),
            Some(values) => match read_texts(values) {
                None => Err(malformed_text("environments")),
                Some(list) => {
                    assert(views(list@).len() == list@.len());
                    if list.len() == 0 {
                        Err("empty environments list".to_owned())
                    } else {
                        Ok(Some(list))
                    }
                },
            },
        },
    }
}

/// Distinct keys are distinct as characters.
proof fn lemma_keys()
    ensures
        "id"@ != "tags"@,
        "id"@ != "description"@,
        "tags"@ != "description"@,
        "tag"@ != "reason"@,
        "tag"@ != "environments"@,
        "reason"@ != "environments"@,
        "test"@ != "reason"@,
        "test"@ != "tracking"@,
        "test"@ != "environments"@,
        "reason"@ != "tracking"@,
        "tracking"@ != "environments"@,
        "unsupported"@ != "expected-fail"@,
{
    reveal_strlit("id");
    reveal_strlit("tags");
    reveal_strlit("description");
    reveal_strlit("tag");
    reveal_strlit("reason");
    reveal_strlit("environments");
    reveal_strlit("test");
    reveal_strlit("tracking");
    reveal_strlit("unsupported");
    reveal_strlit("expected-fail");
    assert("id"@.len() == 2 && "tags"@.len() == 4 && "description"@.len() == 11);
    assert("tag"@.len() == 3 && "reason"@.len() == 6 && "environments"@.len() == 12);
    assert("test"@.len() == 4 && "tracking"@.len() == 8);
    assert("unsupported"@.len() == 11 && "expected-fail"@.len() == 13);
}

fn read_test(value: toml::Value) -> (r: Result<RegisteredTest, String>)
    ensures
        match r {
            Ok(test) => declared_test(toml_held(value)) == Ok::<_, Seq<char>>(test@),
            Err(error) => declared_test(toml_held(value)) == Err::<TestView, _>(error@),
        },
{
    proof {
        lemma_keys();
    }
    match table_of(value) {
        None => Err(malformed_text("test entry")),
        Some(entries) => {
            let mut table = entries;
            let id = take_text(&mut table, "id");
            let description = take_text(&mut table, "description");
            let tags = match take_entry(&mut table, "tags") {
                None => None,
                Some(value) => match list_of(value) {
                    None => None,
                    Some(values) => read_texts(values),
                },
            };
            match (id, tags, description) {
                (Some(id), Some(tags), Some(description)) => Ok(
                    RegisteredTest { id, tags, description },
                ),
                _ => Err(malformed_text("test entry")),
            }
        },
    }
}

fn read_unsupported(value: toml::Value) -> (r: Result<Unsupported, String>)
    ensures
        match r {
            Ok(one) => declared_unsupported(toml_held(value)) == Ok::<_, Seq<char>>(one@),
            Err(error) => declared_unsupported(toml_held(value)) == Err::<UnsupportedView, _>(
                error@,
            ),
        },
{
    proof {
        lemma_keys();
    }
    match table_of(value) {
        None => Err(malformed_text("unsupported entry")),
        Some(entries) => {
            let mut table = entries;
            let tag = take_text(&mut table, "tag");
            let reason = take_text(&mut table, "reason");
            match (tag, reason) {
                (Some(tag), Some(reason)) => match take_scope(&mut table) {
                    Ok(environments) => Ok(Unsupported { tag, reason, environments }),
                    Err(error) => Err(error),
                },
                _ => Err(malformed_text("unsupported entry")),
            }
        },
    }
}

fn read_expected(value: toml::Value) -> (r: Result<ExpectedFail, String>)
    ensures
        match r {
            Ok(one) => declared_expected(toml_held(value)) == Ok::<_, Seq<char>>(one@),
            Err(error) => declared_expected(toml_held(value)) == Err::<ExpectedFailView, _>(
                error@,
            ),
        },
{
    proof {
        lemma_keys();
    }
    match table_of(value) {
        None => Err(malformed_text("expected-fail entry")),
        Some(entries) => {
            let mut table = entries;
            let test = take_text(&mut table, "test");
            let reason = take_text(&mut table, "reason");
            let tracking = take_text(&mut table, "tracking");
            match (test, reason, tracking) {
                (Some(test), Some(reason), Some(tracking)) => match take_scope(&mut table) {
                    Ok(environments) => Ok(ExpectedFail { test, reason, tracking, environments }),
                    Err(error) => Err(error),
                },
                _ => Err(malformed_text("expected-fail entry")),
            }
        },
    }
}

fn read_tests(values: Vec<toml::Value>) -> (r: Result<Vec<RegisteredTest>, String>)
    ensures
        match r {
            Ok(list) => declared_tests(held_all(values@)) == Ok::<_, Seq<char>>(
                test_views(list@),
            ),
            Err(error) => declared_tests(held_all(values@)) == Err::<Seq<TestView>, _>(
                error@,
            ),
        },
{
    let ghost nodes = held_all(values@);
    let mut left = values;
    let mut list: Vec<RegisteredTest> = Vec::new();
    let ghost mut k: int = 0;
    assert(nodes.take(0) =~= Seq::<Node>::empty());
    assert(test_views(list@) =~= Seq::<TestView>::empty());
    assert(held_all(left@) =~= nodes.skip(0));
    while left.len() > 0
        invariant
            0 <= k <= nodes.len(),
            left@.len() == nodes.len() - k,
            held_all(left@) == nodes.skip(k),
            declared_tests(nodes.take(k)) == Ok::<_, Seq<char>>(test_views(list@)),
            nodes == held_all(values@),
        decreases left@.len(),
    {
        let ghost was = test_views(list@);
        proof {
            lemma_held_rest(left@);
        }
        assert(held_all(left@)[0] == nodes[k]);
        let value = left.remove(0);
        assert(nodes.skip(k).skip(1) =~= nodes.skip(k + 1));
        assert(nodes.take(k + 1).drop_last() =~= nodes.take(k));
        assert(nodes.take(k + 1).last() == nodes[k]);
        match read_test(value) {
            Ok(one) => {
                list.push(one);
                assert(test_views(list@) =~= was.push(one@));
            },
            Err(error) => {
                proof {
                    lemma_tests_prefix(nodes, k + 1);
                }
                return Err(error);
            },
        }
        proof {
            k = k + 1;
        }
    }
    assert(nodes.take(k) =~= nodes);
    Ok(list)
}

proof fn lemma_tests_prefix(nodes: Seq<Node>, n: int)
    requires
        0 <= n <= nodes.len(),
        declared_tests(nodes.take(n)) is Err,
    ensures
        declared_tests(nodes) == declared_tests(nodes.take(n)),
    decreases nodes.len() - n,
{
    if n < nodes.len() {
        assert(nodes.take(n + 1).drop_last() =~= nodes.take(n));
        lemma_tests_prefix(nodes, n + 1);
    } else {
        assert(nodes.take(n) =~= nodes);
    }
}

fn read_unsupporteds(values: Vec<toml::Value>) -> (r: Result<Vec<Unsupported>, String>)
    ensures
        match r {
            Ok(list) => declared_unsupporteds(held_all(values@)) == Ok::<_, Seq<char>>(
                unsupported_views(list@),
            ),
            Err(error) => declared_unsupporteds(held_all(values@)) == Err::<Seq<UnsupportedView>, _>(
                error@,
            ),
        },
{
    let ghost nodes = held_all(values@);
    let mut left = values;
    let mut list: Vec<Unsupported> = Vec::new();
    let ghost mut k: int = 0;
    assert(nodes.take(0) =~= Seq::<Node>::empty());
    assert(unsupported_views(list@) =~= Seq::<UnsupportedView>::empty());
    assert(held_all(left@) =~= nodes.skip(0));
    while left.len() > 0
        invariant
            0 <= k <= nodes.len(),
            left@.len() == nodes.len() - k,
            held_all(left@) == nodes.skip(k),
            declared_unsupporteds(nodes.take(k)) == Ok::<_, Seq<char>>(unsupported_views(list@)),
            nodes == held_all(values@),
        decreases left@.len(),
    {
        let ghost was = unsupported_views(list@);
        proof {
            lemma_held_rest(left@);
        }
        assert(held_all(left@)[0] == nodes[k]);
        let value = left.remove(0);
        assert(nodes.skip(k).skip(1) =~= nodes.skip(k + 1));
        assert(nodes.take(k + 1).drop_last() =~= nodes.take(k));
        assert(nodes.take(k + 1).last() == nodes[k]);
        match read_unsupported(value) {
            Ok(one) => {
                list.push(one);
                assert(unsupported_views(list@) =~= was.push(one@));
            },
            Err(error) => {
                proof {
                    lemma_unsupporteds_prefix(nodes, k + 1);
                }
                return Err(error);
            },
        }
        proof {
            k = k + 1;
        }
    }
    assert(nodes.take(k) =~= nodes);
    Ok(list)
}

proof fn lemma_unsupporteds_prefix(nodes: Seq<Node>, n: int)
    requires
        0 <= n <= nodes.len(),
        declared_unsupporteds(nodes.take(n)) is Err,
    ensures
        declared_unsupporteds(nodes) == declared_unsupporteds(nodes.take(n)),
    decreases nodes.len() - n,
{
    if n < nodes.len() {
        assert(nodes.take(n + 1).drop_last() =~= nodes.take(n));
        lemma_unsupporteds_prefix(nodes, n + 1);
    } else {
        assert(nodes.take(n) =~= nodes);
    }
}

fn read_expecteds(values: Vec<toml::Value>) -> (r: Result<Vec<ExpectedFail>, String>)
    ensures
        match r {
            Ok(list) => declared_expecteds(held_all(values@)) == Ok::<_, Seq<char>>(
                expected_views(list@),
            ),
            Err(error) => declared_expecteds(held_all(values@)) == Err::<Seq<ExpectedFailView>, _>(
                error@,
            ),
        },
{
    let ghost nodes = held_all(values@);
    let mut left = values;
    let mut list: Vec<ExpectedFail> = Vec::new();
    let ghost mut k: int = 0;
    assert(nodes.take(0) =~= Seq::<Node>::empty());
    assert(expected_views(list@) =~= Seq::<ExpectedFailView>::empty());
    assert(held_all(left@) =~= nodes.skip(0));
    while left.len() > 0
        invariant
            0 <= k <= nodes.len(),
            left@.len() == nodes.len() - k,
            held_all(left@) == nodes.skip(k),
            declared_expecteds(nodes.take(k)) == Ok::<_, Seq<char>>(expected_views(list@)),
            nodes == held_all(values@),
        decreases left@.len(),
    {
        let ghost was = expected_views(list@);
        proof {
            lemma_held_rest(left@);
        }
        assert(held_all(left@)[0] == nodes[k]);
        let value = left.remove(0);
        assert(nodes.skip(k).skip(1) =~= nodes.skip(k + 1));
        assert(nodes.take(k + 1).drop_last() =~= nodes.take(k));
        assert(nodes.take(k + 1).last() == nodes[k]);
        match read_expected(value) {
            Ok(one) => {
                list.push(one);
                assert(expected_views(list@) =~= was.push(one@));
            },
            Err(error) => {
                proof {
                    lemma_expecteds_prefix(nodes, k + 1);
                }
                return Err(error);
            },
        }
        proof {
            k = k + 1;
        }
    }
    assert(nodes.take(k) =~= nodes);
    Ok(list)
}

proof fn lemma_expecteds_prefix(nodes: Seq<Node>, n: int)
    requires
        0 <= n <= nodes.len(),
        declared_expecteds(nodes.take(n)) is Err,
    ensures
        declared_expecteds(nodes) == declared_expecteds(nodes.take(n)),
    decreases nodes.len() - n,
{
    if n < nodes.len() {
        assert(nodes.take(n + 1).drop_last() =~= nodes.take(n));
        lemma_expecteds_prefix(nodes, n + 1);
    } else {
        assert(nodes.take(n) =~= nodes);
    }
}

fn take_list(table: &mut Vec<(String, toml::Value)>, key: &str) -> (r: Result<
    Vec<toml::Value>,
    String,
>)
    ensures
        match r {
            Ok(values) => listed(held_entries(old(table)@), key@) == Ok::<_, Seq<char>>(
                held_all(values@),
            ),
            Err(error) => listed(held_entries(old(table)@), key@) == Err::<Seq<Node>, _>(error@),
        },
        forall|other: Seq<char>|
            other != key@ ==> #[trigger] entry(held_entries(final(table)@), other) == entry(
                held_entries(old(table)@),
                other,
            ),
{
    match take_entry(table, key) {
        None => {
            let none: Vec<toml::Value> = Vec::new();
            assert(held_all(none@) =~= Seq::<Node>::empty());
            Ok(none)
        },
        Some(value) => match list_of(value) {
            Some(values) => Ok(values),
            None => Err(malformed_text(key)),
        },
    }
}

fn read_manifest(target: String, value: toml::Value) -> (r: Result<Manifest, String>)
    ensures
        match r {
            Ok(one) => declared_manifest(target@, toml_held(value)) == Ok::<_, Seq<char>>(one@),
            Err(error) => declared_manifest(target@, toml_held(value)) == Err::<ManifestView, _>(
                error@,
            ),
        },
{
    proof {
        lemma_keys();
    }
    match table_of(value) {
        None => Err(malformed_text("target")),
        Some(entries) => {
            let mut table = entries;
            match take_list(&mut table, "unsupported") {
                Err(error) => Err(error),
                Ok(unsupported_values) => match read_unsupporteds(unsupported_values) {
                    Err(error) => Err(error),
                    Ok(unsupported) => match take_list(&mut table, "expected-fail") {
                        Err(error) => Err(error),
                        Ok(expected_values) => match read_expecteds(expected_values) {
                            Err(error) => Err(error),
                            Ok(expected_fail) => Ok(
                                Manifest { target, unsupported, expected_fail },
                            ),
                        },
                    },
                },
            }
        },
    }
}

proof fn lemma_manifests_prefix(targets: Seq<(Seq<char>, Node)>, n: int)
    requires
        0 <= n <= targets.len(),
        declared_manifests(targets.take(n)) is Err,
    ensures
        declared_manifests(targets) == declared_manifests(targets.take(n)),
    decreases targets.len() - n,
{
    if n < targets.len() {
        assert(targets.take(n + 1).drop_last() =~= targets.take(n));
        lemma_manifests_prefix(targets, n + 1);
    } else {
        assert(targets.take(n) =~= targets);
    }
}

impl Registry {
    /// Read a registry from its text.
    pub fn parse(text: &str) -> (r: Result<Registry, String>)
        ensures
            match r {
                Ok(registry) => registry_in(text@) == Ok::<_, Seq<char>>(registry@),
                Err(error) => registry_in(text@) == Err::<Seq<TestView>, _>(error@),
            },
    {
        match read_toml(text) {
            Err(error) => Err(error),
            Ok(value) => match table_of(value) {
                None => Err(malformed_text("registry")),
                Some(entries) => {
                    let mut table = entries;
                    match take_entry(&mut table, "test") {
                        None => Err(malformed_text("registry")),
                        Some(value) => match list_of(value) {
                            None => Err(malformed_text("registry")),
                            Some(values) => match read_tests(values) {
                                Ok(tests) => Ok(Registry { tests }),
                                Err(error) => Err(error),
                            },
                        },
                    }
                },
            },
        }
    }

    /// The registered test with an id, the first of them.
    pub fn get(&self, id: &str) -> (r: Option<&RegisteredTest>)
        ensures
            r is Some <==> is_registered(self@, id@),
            r matches Some(test) ==> test@.id == id@ && exists|i: int|
                0 <= i < self@.len() && test@ == #[trigger] self@[i] && forall|k: int|
                    0 <= k < i ==> (#[trigger] self@[k]).id != id@,
    {
        let ghost all = self@;
        let mut i: usize = 0;
        while i < self.tests.len()
            invariant
                i <= self.tests@.len(),
                all == self@,
                forall|k: int| 0 <= k < i ==> (#[trigger] all[k]).id != id@,
            decreases self.tests@.len() - i,
        {
            assert(all[i as int] == self.tests@[i as int]@);
            if same(self.tests[i].id.as_str(), id) {
                return Some(&self.tests[i]);
            }
            i += 1;
        }
        assert(all.len() == self.tests@.len());
        None
    }
}

impl Manifest {
    /// Read every target's manifest from a manifest file's text.
    pub fn parse_all(text: &str) -> (r: Result<Vec<Manifest>, String>)
        ensures
            match r {
                Ok(manifests) => manifests_in(text@) == Ok::<_, Seq<char>>(
                    manifest_views(manifests@),
                ),
                Err(error) => manifests_in(text@) == Err::<Seq<ManifestView>, _>(error@),
            },
    {
        match read_toml(text) {
            Err(error) => Err(error),
            Ok(value) => match table_of(value) {
                None => Err(malformed_text("manifests")),
                Some(entries) => {
                    let mut table = entries;
                    match take_entry(&mut table, "target") {
                        None => Err(malformed_text("manifests")),
                        Some(value) => match table_of(value) {
                            None => Err(malformed_text("manifests")),
                            Some(targets) => Manifest::read_all(targets),
                        },
                    }
                },
            },
        }
    }

    fn read_all(targets: Vec<(String, toml::Value)>) -> (r: Result<Vec<Manifest>, String>)
        ensures
            match r {
                Ok(manifests) => declared_manifests(held_entries(targets@)) == Ok::<_, Seq<char>>(
                    manifest_views(manifests@),
                ),
                Err(error) => declared_manifests(held_entries(targets@)) == Err::<
                    Seq<ManifestView>,
                    _,
                >(error@),
            },
    {
        let ghost all = held_entries(targets@);
        let mut left = targets;
        let mut list: Vec<Manifest> = Vec::new();
        let ghost mut k: int = 0;
        assert(all.take(0) =~= Seq::<(Seq<char>, Node)>::empty());
        assert(manifest_views(list@) =~= Seq::<ManifestView>::empty());
        assert(held_entries(left@) =~= all.skip(0));
        while left.len() > 0
            invariant
                0 <= k <= all.len(),
                left@.len() == all.len() - k,
                held_entries(left@) == all.skip(k),
                declared_manifests(all.take(k)) == Ok::<_, Seq<char>>(manifest_views(list@)),
                all == held_entries(targets@),
            decreases left@.len(),
        {
            let ghost was = manifest_views(list@);
            proof {
                lemma_entries_rest(left@);
            }
            assert(held_entries(left@)[0] == all[k]);
            let (target, value) = left.remove(0);
            assert(all.skip(k).skip(1) =~= all.skip(k + 1));
            assert(all.take(k + 1).drop_last() =~= all.take(k));
            assert(all.take(k + 1).last() == all[k]);
            match read_manifest(target, value) {
                Ok(one) => {
                    list.push(one);
                    assert(manifest_views(list@) =~= was.push(one@));
                },
                Err(error) => {
                    proof {
                        lemma_manifests_prefix(all, k + 1);
                    }
                    return Err(error);
                },
            }
            proof {
                k = k + 1;
            }
        }
        assert(all.take(k) =~= all);
        Ok(list)
    }
}

// ----- laws ----------------------------------------------------------------------------

/// A list of tests is read whole: every entry declares the test at its place, and one that
/// declares none is an error.
pub proof fn every_test_is_read(nodes: Seq<Node>)
    ensures
        declared_tests(nodes) is Ok <==> forall|i: int|
            0 <= i < nodes.len() ==> declared_test(#[trigger] nodes[i]) is Ok,
        declared_tests(nodes) matches Ok(list) ==> list.len() == nodes.len() && forall|i: int|
            0 <= i < list.len() ==> #[trigger] list[i] == declared_test(nodes[i])->Ok_0,
    decreases nodes.len(),
{
    if nodes.len() > 0 {
        let less = nodes.drop_last();
        every_test_is_read(less);
        assert forall|i: int| 0 <= i < less.len() implies #[trigger] less[i] == nodes[i] by {}
        if declared_tests(nodes) is Ok {
            assert forall|i: int| 0 <= i < nodes.len() implies declared_test(
                #[trigger] nodes[i],
            ) is Ok by {
                if i < less.len() {
                    assert(less[i] == nodes[i]);
                }
            }
            let list = declared_tests(nodes)->Ok_0;
            let fewer = declared_tests(less)->Ok_0;
            assert forall|i: int| 0 <= i < list.len() implies #[trigger] list[i]
                == declared_test(nodes[i])->Ok_0 by {
                if i < less.len() {
                    assert(less[i] == nodes[i]);
                    assert(list[i] == fewer[i]);
                }
            }
        } else if forall|i: int| 0 <= i < nodes.len() ==> declared_test(#[trigger] nodes[i]) is Ok {
            assert forall|i: int| 0 <= i < less.len() implies declared_test(
                #[trigger] less[i],
            ) is Ok by {
                assert(less[i] == nodes[i]);
                assert(declared_test(nodes[i]) is Ok);
            }
            assert(declared_test(nodes[nodes.len() - 1]) is Ok);
        }
    }
}

/// A list of unsupported tags is read whole.
pub proof fn every_unsupported_tag_is_read(nodes: Seq<Node>)
    ensures
        declared_unsupporteds(nodes) is Ok <==> forall|i: int|
            0 <= i < nodes.len() ==> declared_unsupported(#[trigger] nodes[i]) is Ok,
        declared_unsupporteds(nodes) matches Ok(list) ==> list.len() == nodes.len() && forall|
            i: int,
        |
            0 <= i < list.len() ==> #[trigger] list[i] == declared_unsupported(nodes[i])->Ok_0,
    decreases nodes.len(),
{
    if nodes.len() > 0 {
        let less = nodes.drop_last();
        every_unsupported_tag_is_read(less);
        assert forall|i: int| 0 <= i < less.len() implies #[trigger] less[i] == nodes[i] by {}
        if declared_unsupporteds(nodes) is Ok {
            assert forall|i: int| 0 <= i < nodes.len() implies declared_unsupported(
                #[trigger] nodes[i],
            ) is Ok by {
                if i < less.len() {
                    assert(less[i] == nodes[i]);
                }
            }
            let list = declared_unsupporteds(nodes)->Ok_0;
            let fewer = declared_unsupporteds(less)->Ok_0;
            assert forall|i: int| 0 <= i < list.len() implies #[trigger] list[i]
                == declared_unsupported(nodes[i])->Ok_0 by {
                if i < less.len() {
                    assert(less[i] == nodes[i]);
                    assert(list[i] == fewer[i]);
                }
            }
        } else if forall|i: int|
            0 <= i < nodes.len() ==> declared_unsupported(#[trigger] nodes[i]) is Ok {
            assert forall|i: int| 0 <= i < less.len() implies declared_unsupported(
                #[trigger] less[i],
            ) is Ok by {
                assert(less[i] == nodes[i]);
                assert(declared_unsupported(nodes[i]) is Ok);
            }
            assert(declared_unsupported(nodes[nodes.len() - 1]) is Ok);
        }
    }
}

/// A list of expected failures is read whole.
pub proof fn every_expected_failure_is_read(nodes: Seq<Node>)
    ensures
        declared_expecteds(nodes) is Ok <==> forall|i: int|
            0 <= i < nodes.len() ==> declared_expected(#[trigger] nodes[i]) is Ok,
        declared_expecteds(nodes) matches Ok(list) ==> list.len() == nodes.len() && forall|i: int|
            0 <= i < list.len() ==> #[trigger] list[i] == declared_expected(nodes[i])->Ok_0,
    decreases nodes.len(),
{
    if nodes.len() > 0 {
        let less = nodes.drop_last();
        every_expected_failure_is_read(less);
        assert forall|i: int| 0 <= i < less.len() implies #[trigger] less[i] == nodes[i] by {}
        if declared_expecteds(nodes) is Ok {
            assert forall|i: int| 0 <= i < nodes.len() implies declared_expected(
                #[trigger] nodes[i],
            ) is Ok by {
                if i < less.len() {
                    assert(less[i] == nodes[i]);
                }
            }
            let list = declared_expecteds(nodes)->Ok_0;
            let fewer = declared_expecteds(less)->Ok_0;
            assert forall|i: int| 0 <= i < list.len() implies #[trigger] list[i]
                == declared_expected(nodes[i])->Ok_0 by {
                if i < less.len() {
                    assert(less[i] == nodes[i]);
                    assert(list[i] == fewer[i]);
                }
            }
        } else if forall|i: int|
            0 <= i < nodes.len() ==> declared_expected(#[trigger] nodes[i]) is Ok {
            assert forall|i: int| 0 <= i < less.len() implies declared_expected(
                #[trigger] less[i],
            ) is Ok by {
                assert(less[i] == nodes[i]);
                assert(declared_expected(nodes[i]) is Ok);
            }
            assert(declared_expected(nodes[nodes.len() - 1]) is Ok);
        }
    }
}

/// Every target of a document is read, in its place.
pub proof fn every_target_is_read(targets: Seq<(Seq<char>, Node)>)
    ensures
        declared_manifests(targets) is Ok <==> forall|i: int|
            0 <= i < targets.len() ==> declared_manifest(
                (#[trigger] targets[i]).0,
                targets[i].1,
            ) is Ok,
        declared_manifests(targets) matches Ok(list) ==> list.len() == targets.len() && forall|
            i: int,
        |
            0 <= i < list.len() ==> #[trigger] list[i] == declared_manifest(
                targets[i].0,
                targets[i].1,
            )->Ok_0,
    decreases targets.len(),
{
    if targets.len() > 0 {
        let less = targets.drop_last();
        every_target_is_read(less);
        assert forall|i: int| 0 <= i < less.len() implies #[trigger] less[i] == targets[i] by {}
        if declared_manifests(targets) is Ok {
            assert forall|i: int| 0 <= i < targets.len() implies declared_manifest((
                #[trigger] targets[i]).0, targets[i].1,
            ) is Ok by {
                if i < less.len() {
                    assert(less[i] == targets[i]);
                }
            }
            let list = declared_manifests(targets)->Ok_0;
            let fewer = declared_manifests(less)->Ok_0;
            assert forall|i: int| 0 <= i < list.len() implies #[trigger] list[i]
                == declared_manifest(targets[i].0, targets[i].1)->Ok_0 by {
                if i < less.len() {
                    assert(less[i] == targets[i]);
                    assert(list[i] == fewer[i]);
                }
            }
        } else if forall|i: int|
            0 <= i < targets.len() ==> declared_manifest(
                (#[trigger] targets[i]).0,
                targets[i].1,
            ) is Ok {
            assert forall|i: int| 0 <= i < less.len() implies declared_manifest((
                #[trigger] less[i]).0, less[i].1,
            ) is Ok by {
                assert(less[i] == targets[i]);
                assert(declared_manifest(targets[i].0, targets[i].1) is Ok);
            }
            assert(declared_manifest(
                targets[targets.len() - 1].0,
                targets[targets.len() - 1].1,
            ) is Ok);
        }
    }
}

/// A list of texts is read whole, and is none if it holds anything else.
pub proof fn every_text_is_read(nodes: Seq<Node>)
    ensures
        texts_in(nodes) is Some <==> forall|i: int|
            0 <= i < nodes.len() ==> #[trigger] nodes[i] is Text,
        texts_in(nodes) matches Some(texts) ==> texts.len() == nodes.len() && forall|i: int|
            0 <= i < texts.len() ==> Node::Text(#[trigger] texts[i]) == nodes[i],
    decreases nodes.len(),
{
    if nodes.len() > 0 {
        let less = nodes.drop_last();
        every_text_is_read(less);
        if texts_in(nodes) is Some {
            assert forall|i: int| 0 <= i < nodes.len() implies #[trigger] nodes[i] is Text by {
                if i < less.len() {
                    assert(less[i] == nodes[i]);
                }
            }
            let texts = texts_in(nodes)->Some_0;
            let fewer = texts_in(less)->Some_0;
            assert forall|i: int| 0 <= i < texts.len() implies Node::Text(#[trigger] texts[i])
                == nodes[i] by {
                if i < less.len() {
                    assert(less[i] == nodes[i]);
                    assert(texts[i] == fewer[i]);
                }
            }
        } else if forall|i: int| 0 <= i < nodes.len() ==> #[trigger] nodes[i] is Text {
            assert forall|i: int| 0 <= i < less.len() implies #[trigger] less[i] is Text by {
                assert(less[i] == nodes[i]);
            }
            assert(nodes[nodes.len() - 1] is Text);
        }
    }
}

/// What an entry declares is what its members hold, each by its own name, and it declares
/// nothing if one of them is missing.
pub proof fn entries_declare_their_members(table: Seq<(Seq<char>, Node)>)
    ensures
        declared_test(Node::Table(table)) matches Ok(test) ==> {
            &&& entry(table, "id"@) == Some(Node::Text(test.id))
            &&& entry(table, "description"@) == Some(Node::Text(test.description))
            &&& entry(table, "tags"@) matches Some(Node::List(nodes)) && texts_in(nodes) == Some(
                test.tags,
            )
        },
        declared_unsupported(Node::Table(table)) matches Ok(one) ==> {
            &&& entry(table, "tag"@) == Some(Node::Text(one.tag))
            &&& entry(table, "reason"@) == Some(Node::Text(one.reason))
            &&& declared_scope(table) == Ok::<_, Seq<char>>(one.environments)
        },
        declared_expected(Node::Table(table)) matches Ok(one) ==> {
            &&& entry(table, "test"@) == Some(Node::Text(one.test))
            &&& entry(table, "reason"@) == Some(Node::Text(one.reason))
            &&& entry(table, "tracking"@) == Some(Node::Text(one.tracking))
            &&& declared_scope(table) == Ok::<_, Seq<char>>(one.environments)
        },
        entry(table, "id"@) is None || entry(table, "tags"@) is None || entry(
            table,
            "description"@,
        ) is None ==> declared_test(Node::Table(table)) is Err,
        entry(table, "tag"@) is None || entry(table, "reason"@) is None ==> declared_unsupported(
            Node::Table(table),
        ) is Err,
        entry(table, "test"@) is None || entry(table, "reason"@) is None || entry(
            table,
            "tracking"@,
        ) is None ==> declared_expected(Node::Table(table)) is Err,
{
}

/// A scope is either absent or names an environment: an empty one is refused, and so is one
/// that is not a list of texts.
pub proof fn scope_names_an_environment(table: Seq<(Seq<char>, Node)>)
    ensures
        declared_scope(table) == Ok::<Option<Seq<Seq<char>>>, Seq<char>>(None) <==> entry(
            table,
            "environments"@,
        ) is None,
        declared_scope(table) matches Ok(Some(list)) ==> list.len() > 0 && (entry(
            table,
            "environments"@,
        ) matches Some(Node::List(nodes)) && texts_in(nodes) == Some(list)),
        entry(table, "environments"@) matches Some(node) ==> (declared_scope(table) is Ok <==> (
        node matches Node::List(nodes) && texts_in(nodes) is Some && nodes.len() > 0)),
{
    if let Some(Node::List(nodes)) = entry(table, "environments"@) {
        every_text_is_read(nodes);
    }
}

/// A target's manifest has all that its two lists declare, the one as what it does not support
/// and the other as what is expected to fail; a list that is absent is an empty one.
pub proof fn manifest_has_both_lists(target: Seq<char>, table: Seq<(Seq<char>, Node)>)
    ensures
        declared_manifest(target, Node::Table(table)) matches Ok(manifest) ==> {
            &&& manifest.target == target
            &&& match entry(table, "unsupported"@) {
                Some(Node::List(nodes)) => manifest.unsupported.len() == nodes.len() && forall|
                    i: int,
                |
                    0 <= i < nodes.len() ==> Ok::<UnsupportedView, Seq<char>>(
                        #[trigger] manifest.unsupported[i],
                    ) == declared_unsupported(nodes[i]),
                Some(_) => false,
                None => manifest.unsupported.len() == 0,
            }
            &&& match entry(table, "expected-fail"@) {
                Some(Node::List(nodes)) => manifest.expected_fail.len() == nodes.len() && forall|
                    i: int,
                |
                    0 <= i < nodes.len() ==> Ok::<ExpectedFailView, Seq<char>>(
                        #[trigger] manifest.expected_fail[i],
                    ) == declared_expected(nodes[i]),
                Some(_) => false,
                None => manifest.expected_fail.len() == 0,
            }
        },
{
    if let Ok(manifest) = declared_manifest(target, Node::Table(table)) {
        if let Some(Node::List(nodes)) = entry(table, "unsupported"@) {
            every_unsupported_tag_is_read(nodes);
            assert forall|i: int| 0 <= i < nodes.len() implies Ok::<UnsupportedView, Seq<char>>(
                #[trigger] manifest.unsupported[i],
            ) == declared_unsupported(nodes[i]) by {
                assert(declared_unsupported(nodes[i]) is Ok);
            }
        }
        if let Some(Node::List(nodes)) = entry(table, "expected-fail"@) {
            every_expected_failure_is_read(nodes);
            assert forall|i: int| 0 <= i < nodes.len() implies Ok::<ExpectedFailView, Seq<char>>(
                #[trigger] manifest.expected_fail[i],
            ) == declared_expected(nodes[i]) by {
                assert(declared_expected(nodes[i]) is Ok);
            }
        }
    }
}

/// A registry is read from the list of tests of a document, and the manifests from its table of
/// targets; a document without them is an error, and so is a text that is no document.
pub proof fn documents_are_read_by_their_keys(text: Seq<char>)
    ensures
        registry_in(text) matches Ok(tests) ==> (toml_read(text) matches Ok(Node::Table(table)) && (
        entry(table, "test"@) matches Some(Node::List(nodes)) && tests.len() == nodes.len()
            && declared_tests(nodes) == Ok::<_, Seq<char>>(tests))),
        manifests_in(text) matches Ok(list) ==> (toml_read(text) matches Ok(Node::Table(table)) && (
        entry(table, "target"@) matches Some(Node::Table(targets)) && list.len() == targets.len()
            && declared_manifests(targets) == Ok::<_, Seq<char>>(list))),
        toml_read(text) is Err ==> registry_in(text) is Err && manifests_in(text) is Err,
        (toml_read(text) matches Ok(Node::Table(table)) && (entry(table, "test"@) matches Some(
            Node::List(nodes),
        ) && declared_tests(nodes) is Ok)) ==> registry_in(text) is Ok,
        (toml_read(text) matches Ok(Node::Table(table)) && (entry(table, "target"@) matches Some(
            Node::Table(targets),
        ) && declared_manifests(targets) is Ok)) ==> manifests_in(text) is Ok,
{
    if let Ok(Node::Table(table)) = toml_read(text) {
        if let Some(Node::List(nodes)) = entry(table, "test"@) {
            every_test_is_read(nodes);
        }
        if let Some(Node::Table(targets)) = entry(table, "target"@) {
            every_target_is_read(targets);
        }
    }
}

} // verus!
