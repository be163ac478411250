//! The configuration: the links by name, and the directory that their
//! relative paths start from.

use crate::link::{Link, LinkView};
use crate::order::{compare, precedes, Order};
use crate::order::{lemma_precedes_irreflexive, lemma_precedes_total, lemma_precedes_transitive};
use crate::path::{anchored, resolve_for_user, resolved, text_of, text_of_str, tilde_led};
use vstd::prelude::*;

verus! {

/// A named link as a mathematical value.
pub type Named = (Seq<char>, LinkView);

/// The mathematical value of a named link.
pub open spec fn named(entry: (String, Link)) -> Named {
    (entry.0@, entry.1@)
}

/// The mathematical value of a list of named links.
pub open spec fn named_links(entries: Seq<(String, Link)>) -> Seq<Named> {
    Seq::new(entries.len(), |i: int| named(entries[i]))
}

/// The place of `name` among `links`: the number of links at the front
/// whose names come before it.
pub open spec fn slot(links: Seq<Named>, name: Seq<char>) -> nat
    decreases links.len(),
{
    if links.len() == 0 || !precedes(links[0].0, name) {
        0
    } else {
        1 + slot(links.drop_first(), name)
    }
}

/// A configuration as a mathematical value: the links in the order of
/// their names.
pub struct ConfigView {
    pub base_dir: Option<Seq<char>>,
    pub links: Seq<Named>,
}

impl ConfigView {
    /// Whether the names ascend. No name then occurs twice.
    pub open spec fn wf(self) -> bool {
        forall|i: int, j: int|
            0 <= i < j < self.links.len() ==> precedes(
                #[trigger] self.links[i].0,
                #[trigger] self.links[j].0,
            )
    }

    /// Whether a link goes by `name`.
    pub open spec fn holds(self, name: Seq<char>) -> bool {
        slot(self.links, name) < self.links.len() && self.links[slot(self.links, name) as int].0
            == name
    }

    /// The link that goes by `name`, if there is one.
    pub open spec fn find(self, name: Seq<char>) -> Option<LinkView> {
        if self.holds(name) {
            Some(self.links[slot(self.links, name) as int].1)
        } else {
            None
        }
    }

    /// The configuration in which `name` stands for `link`: in place of the
    /// link that went by that name, or else at the place that the order of
    /// names gives it.
    pub open spec fn with(self, name: Seq<char>, link: LinkView) -> ConfigView {
        let at = slot(self.links, name) as int;
        ConfigView {
            links: if self.holds(name) {
                self.links.update(at, (name, link))
            } else {
                self.links.insert(at, (name, link))
            },
            ..self
        }
    }

    /// Whether `out` is what the configured path `path` can stand for:
    /// its resolution under some home directory.
    pub open spec fn resolves(self, path: Seq<char>, out: Seq<char>) -> bool {
        exists|home: Option<Seq<char>>| out == #[trigger] resolved(path, home, self.base_dir)
    }
}

/// The place of a name is past every link whose name comes before it and
/// no further.
pub proof fn lemma_slot(links: Seq<Named>, name: Seq<char>)
    ensures
        slot(links, name) <= links.len(),
        forall|i: int| 0 <= i < slot(links, name) ==> precedes(#[trigger] links[i].0, name),
        slot(links, name) < links.len() ==> !precedes(links[slot(links, name) as int].0, name),
    decreases links.len(),
{
    if links.len() > 0 && precedes(links[0].0, name) {
        let rest = links.drop_first();
        lemma_slot(rest, name);
        assert forall|i: int| 0 <= i < slot(links, name) implies precedes(
            #[trigger] links[i].0,
            name,
        ) by {
            if i > 0 {
                assert(links[i] == rest[i - 1]);
            }
        }
        if slot(links, name) < links.len() {
            assert(links[slot(links, name) as int] == rest[slot(rest, name) as int]);
        }
    }
}

/// A place past every link whose name comes before `name`, and at a link
/// whose name does not, is the place of `name`.
pub proof fn lemma_slot_is(links: Seq<Named>, name: Seq<char>, at: int)
    requires
        0 <= at <= links.len(),
        forall|i: int| 0 <= i < at ==> precedes(#[trigger] links[i].0, name),
        at < links.len() ==> !precedes(links[at].0, name),
    ensures
        slot(links, name) == at,
    decreases links.len(),
{
    if at > 0 {
        let rest = links.drop_first();
        assert(precedes(links[0].0, name));
        assert forall|i: int| 0 <= i < at - 1 implies precedes(#[trigger] rest[i].0, name) by {
            assert(rest[i] == links[i + 1]);
        }
        lemma_slot_is(rest, name, at - 1);
    }
}

/// Among ascending names a name has one place only: the link that bears it
/// stands at the place of the name.
pub proof fn lemma_slot_of_held(config: ConfigView, name: Seq<char>, at: int)
    requires
        config.wf(),
        0 <= at < config.links.len(),
        config.links[at].0 == name,
    ensures
        slot(config.links, name) == at,
        config.holds(name),
        config.find(name) == Some(config.links[at].1),
{
    lemma_precedes_irreflexive(name);
    assert forall|i: int| 0 <= i < at implies precedes(#[trigger] config.links[i].0, name) by {
        assert(precedes(config.links[i].0, config.links[at].0));
    }
    lemma_slot_is(config.links, name, at);
}

/// The links of `config.with(name, link)`, place by place: the new link at
/// the place of the name, and around it the links that were there.
proof fn lemma_with_places(config: ConfigView, name: Seq<char>, link: LinkView)
    ensures
        ({
            let at = slot(config.links, name) as int;
            let now = config.with(name, link).links;
            let shift = if config.holds(name) {
                0int
            } else {
                1int
            };
            &&& at <= config.links.len()
            &&& now.len() == config.links.len() + shift
            &&& now[at] == (name, link)
            &&& forall|i: int| 0 <= i < at ==> #[trigger] now[i] == config.links[i]
            &&& forall|i: int| at < i < now.len() ==> #[trigger] now[i] == config.links[i - shift]
        }),
{
    lemma_slot(config.links, name);
}

/// Putting a link under a name keeps the names ascending.
pub proof fn lemma_with_keeps_order(config: ConfigView, name: Seq<char>, link: LinkView)
    requires
        config.wf(),
    ensures
        config.with(name, link).wf(),
{
    let at = slot(config.links, name) as int;
    let was = config.links;
    let now = config.with(name, link).links;
    let shift = if config.holds(name) {
        0int
    } else {
        1int
    };
    lemma_slot(was, name);
    lemma_with_places(config, name, link);
    if at < was.len() && !config.holds(name) {
        lemma_precedes_total(was[at].0, name);
    }
    assert forall|i: int, j: int| 0 <= i < j < now.len() implies precedes(
        #[trigger] now[i].0,
        #[trigger] now[j].0,
    ) by {
        if j == at {
            assert(now[i] == was[i]);
        } else if i == at {
            let k = j - shift;
            assert(now[j] == was[k]);
            if config.holds(name) {
                assert(precedes(was[at].0, was[k].0));
            } else if k > at {
                assert(precedes(was[at].0, was[k].0));
                lemma_precedes_transitive(name, was[at].0, was[k].0);
            }
        } else {
            let from = if i < at {
                i
            } else {
                i - shift
            };
            let to = if j < at {
                j
            } else {
                j - shift
            };
            assert(now[i] == was[from]);
            assert(now[j] == was[to]);
            assert(precedes(was[from].0, was[to].0));
        }
    }
}

/// A name stands for the link last put under it, and putting a link under
/// one name changes nothing for any other.
pub proof fn lemma_with_find(config: ConfigView, name: Seq<char>, link: LinkView, other: Seq<char>)
    requires
        config.wf(),
    ensures
        config.with(name, link).find(name) == Some(link),
        other != name ==> config.with(name, link).find(other) == config.find(other),
        config.with(name, link).links.len() == config.links.len() + if config.holds(name) {
            0int
        } else {
            1int
        },
{
    let at = slot(config.links, name) as int;
    let was = config.links;
    let after = config.with(name, link);
    let now = after.links;
    let shift = if config.holds(name) {
        0int
    } else {
        1int
    };
    lemma_with_places(config, name, link);
    lemma_with_keeps_order(config, name, link);
    lemma_slot_of_held(after, name, at);
    if other != name {
        if config.holds(other) {
            let j = slot(was, other) as int;
            let moved = if j < at {
                j
            } else {
                j + shift
            };
            assert(now[moved] == was[j]);
            lemma_slot_of_held(after, other, moved);
        } else if after.holds(other) {
            let k = slot(now, other) as int;
            let from = if k < at {
                k
            } else {
                k - shift
            };
            assert(now[k] == was[from]);
            lemma_slot_of_held(config, other, from);
        }
    }
}

/// The configuration: each link under its name, and the directory that
/// relative paths start from.
pub struct Config {
    base_dir: Option<String>,
    link: Vec<(String, Link)>,
}

impl View for Config {
    type V = ConfigView;

    closed spec fn view(&self) -> ConfigView {
        ConfigView { base_dir: text_of(self.base_dir), links: named_links(self.link@) }
    }
}

impl Config {
    #[verifier::type_invariant]
    spec fn inv(self) -> bool {
        self@.wf()
    }

    /// A configuration without links, whose relative paths start from
    /// `base_dir`.
    pub fn new(base_dir: Option<String>) -> (config: Config)
        ensures
            config@ == (ConfigView { base_dir: text_of(base_dir), links: Seq::empty() }),
            config@.wf(),
    {
        let config = Config { base_dir, link: Vec::new() };
        assert(config@.links =~= Seq::empty());
        config
    }

    /// The directory that relative paths start from.
    pub fn base_dir(&self) -> (base: Option<&str>)
        ensures
            text_of_str(base) == self@.base_dir,
    {
        match &self.base_dir {
            Some(directory) => Some(directory.as_str()),
            None => None,
        }
    }

    /// The number of links.
    pub fn len(&self) -> (count: usize)
        ensures
            count == self@.links.len(),
    {
        self.link.len()
    }

    /// Whether there is no link.
    pub fn is_empty(&self) -> (empty: bool)
        ensures
            empty == (self@.links.len() == 0),
    {
        self.link.len() == 0
    }

    /// The place of `name`, and whether a link goes by it.
    fn place(&self, name: &str) -> (found: (usize, bool))
        ensures
            found.0 == slot(self@.links, name@),
            found.1 == self@.holds(name@),
            found.0 <= self.link.len(),
    {
        let mut at: usize = 0;
        let mut held = false;
        while at < self.link.len()
            invariant_except_break
                !held,
            invariant
                at <= self.link.len(),
                forall|i: int| 0 <= i < at ==> precedes(#[trigger] self@.links[i].0, name@),
            ensures
                at < self.link.len() ==> !precedes(self@.links[at as int].0, name@),
                held == (at < self.link.len() && self@.links[at as int].0 == name@),
            decreases self.link.len() - at,
        {
            match compare(self.link[at].0.as_str(), name) {
                Order::Before => {
                    at += 1;
                },
                Order::Same => {
                    proof {
                        lemma_precedes_irreflexive(name@);
                    }
                    held = true;
                    break ;
                },
                Order::After => {
                    break ;
                },
            }
        }
        proof {
            lemma_slot_is(self@.links, name@, at as int);
        }
        (at, held)
    }

    /// The link that goes by `name`, if there is one.
    pub fn get(&self, name: &str) -> (link: Option<&Link>)
        ensures
            link is Some == self@.holds(name@),
            link matches Some(found) ==> Some(found@) == self@.find(name@),
    {
        let (at, held) = self.place(name);
        if held {
            Some(&self.link[at].1)
        } else {
            None
        }
    }

    /// Puts `link` under `name` and returns the link that went by that
    /// name before, if there was one.
    pub fn insert(&mut self, name: String, link: Link) -> (before: Option<Link>)
        ensures
            final(self)@ == old(self)@.with(name@, link@),
            final(self)@.wf(),
            before is Some == old(self)@.holds(name@),
            before matches Some(replaced) ==> Some(replaced@) == old(self)@.find(name@),
    {
        proof {
            use_type_invariant(&*self);
        }
        let (at, held) = self.place(name.as_str());
        let ghost was = self@;
        let ghost new_name = name@;
        let ghost new_link = link@;
        let mut links = Vec::new();
        std::mem::swap(&mut links, &mut self.link);
        let before = if held {
            let replaced = links.remove(at);
            Some(replaced.1)
        } else {
            None
        };
        links.insert(at, (name, link));
        proof {
            lemma_slot(was.links, new_name);
            lemma_with_keeps_order(was, new_name, new_link);
            assert(named_links(links@) =~= was.with(new_name, new_link).links);
        }
        self.link = links;
        before
    }

    /// The path that the configured path `path` stands for: the tilde
    /// stands for the home directory of the user, and what is then still
    /// relative is taken from the base directory.
    pub fn resolve_path(&self, path: &str) -> (result: String)
        ensures
            self@.resolves(path@, result@),
            !tilde_led(path@) ==> result@ == anchored(path@, self@.base_dir),
    {
        resolve_for_user(path, self.base_dir())
    }

    /// The links by name, in the order of the names, each with its paths
    /// resolved.
    pub fn links(&self) -> (links: Vec<(&str, Link)>)
        ensures
            links.len() == self@.links.len(),
            forall|i: int|
                #![trigger links[i]]
                0 <= i < links.len() ==> {
                    &&& links[i].0@ == self@.links[i].0
                    &&& self@.resolves(self@.links[i].1.source, links[i].1.source@)
                    &&& self@.resolves(self@.links[i].1.target, links[i].1.target@)
                },
            forall|i: int, j: int|
                0 <= i < j < links.len() ==> precedes(#[trigger] links[i].0@, #[trigger] links[j].0@),
    {
        proof {
            use_type_invariant(self);
        }
        let mut links: Vec<(&str, Link)> = Vec::new();
        let mut done: usize = 0;
        while done < self.link.len()
            invariant
                done <= self.link.len(),
                links.len() == done,
                self@.wf(),
                forall|i: int|
                    #![trigger links[i]]
                    0 <= i < done ==> {
                        &&& links[i].0@ == self@.links[i].0
                        &&& self@.resolves(self@.links[i].1.source, links[i].1.source@)
                        &&& self@.resolves(self@.links[i].1.target, links[i].1.target@)
                    },
            decreases self.link.len() - done,
        {
            let entry = &self.link[done];
            let resolved_link = Link {
                source: self.resolve_path(entry.1.source.as_str()),
                target: self.resolve_path(entry.1.target.as_str()),
            };
            links.push((entry.0.as_str(), resolved_link));
            done += 1;
        }
        assert forall|i: int, j: int| 0 <= i < j < links.len() implies precedes(
            #[trigger] links[i].0@,
            #[trigger] links[j].0@,
        ) by {
            assert(links[i].0@ == self@.links[i].0);
            assert(links[j].0@ == self@.links[j].0);
        }
        links
    }
}

impl Default for Config {
    fn default() -> (config: Config)
        ensures
            config@ == (ConfigView { base_dir: None, links: Seq::empty() }),
    {
        Config::new(None)
    }
}

} // verus!
