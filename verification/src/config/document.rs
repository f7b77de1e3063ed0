//! Configuration documents: sections of keys, each key with a value slot.

use vstd::prelude::*;

verus! {

/// A document as a value: section name to key to slot. A slot without a value
/// belongs to a key that was declared bare.
pub type DocumentView = Map<Seq<char>, Map<Seq<char>, Option<Seq<char>>>>;

/// Why a lookup found no text.
#[derive(Clone, Copy, Debug, PartialEq, Eq, Structural)]
pub enum ConfigLookupError {
    SectionNotFound,
    KeyNotFound,
    KeyHasNoValue,
}

/// A slot as a value.
pub open spec fn slot_view(slot: Option<String>) -> Option<Seq<char>> {
    match slot {
        Some(text) => Some(text@),
        None => None,
    }
}

/// The section named `section`, empty where the document has none.
pub open spec fn section_of(doc: DocumentView, section: Seq<char>) -> Map<
    Seq<char>,
    Option<Seq<char>>,
> {
    if doc.contains_key(section) {
        doc[section]
    } else {
        Map::empty()
    }
}

/// Whether the document holds `key` in `section`.
pub open spec fn has_slot(doc: DocumentView, section: Seq<char>, key: Seq<char>) -> bool {
    doc.contains_key(section) && doc[section].contains_key(key)
}

/// The document after `key` in `section` is given `slot`: the section is made
/// if it is missing, and every other key stays.
pub open spec fn with_slot(
    doc: DocumentView,
    section: Seq<char>,
    key: Seq<char>,
    slot: Option<Seq<char>>,
) -> DocumentView {
    doc.insert(section, section_of(doc, section).insert(key, slot))
}

/// What a lookup of `key` in `section` finds.
pub open spec fn lookup(doc: DocumentView, section: Seq<char>, key: Seq<char>) -> Result<
    Seq<char>,
    ConfigLookupError,
> {
    if !doc.contains_key(section) {
        Err(ConfigLookupError::SectionNotFound)
    } else if !doc[section].contains_key(key) {
        Err(ConfigLookupError::KeyNotFound)
    } else {
        match doc[section][key] {
            Some(text) => Ok(text),
            None => Err(ConfigLookupError::KeyHasNoValue),
        }
    }
}

/// One key of one section, with its slot.
#[derive(Debug, Clone)]
pub struct Entry {
    section: String,
    key: String,
    slot: Option<String>,
}

/// A document, kept as the list of its entries. Where the list names a key of
/// a section twice, the entry nearest the end counts.
#[derive(Debug, Clone)]
pub struct ConfigDocument {
    entries: Vec<Entry>,
}

/// The document that a list of entries stands for.
pub closed spec fn entries_doc(es: Seq<Entry>) -> DocumentView
    decreases es.len(),
{
    if es.len() == 0 {
        Map::empty()
    } else {
        with_slot(
            entries_doc(es.drop_last()),
            es.last().section@,
            es.last().key@,
            slot_view(es.last().slot),
        )
    }
}

spec fn names(e: Entry, section: Seq<char>, key: Seq<char>) -> bool {
    e.section@ == section && e.key@ == key
}

/// Whether `i` is the last entry of `es` for `key` in `section`.
spec fn is_last_for(es: Seq<Entry>, section: Seq<char>, key: Seq<char>, i: int) -> bool {
    &&& 0 <= i < es.len()
    &&& names(es[i], section, key)
    &&& forall|j: int| i < j < es.len() ==> !names(#[trigger] es[j], section, key)
}

proof fn lemma_section_known(es: Seq<Entry>, section: Seq<char>)
    ensures
        entries_doc(es).contains_key(section) <==> exists|j: int|
            0 <= j < es.len() && (#[trigger] es[j]).section@ == section,
    decreases es.len(),
{
    if es.len() > 0 {
        let front = es.drop_last();
        lemma_section_known(front, section);
        if entries_doc(es).contains_key(section) {
            if es.last().section@ == section {
                assert(es[es.len() - 1].section@ == section);
            } else {
                let j = choose|j: int| 0 <= j < front.len() && (#[trigger] front[j]).section@ == section;
                assert(es[j] == front[j]);
            }
        }
        if exists|j: int| 0 <= j < es.len() && (#[trigger] es[j]).section@ == section {
            let j = choose|j: int| 0 <= j < es.len() && (#[trigger] es[j]).section@ == section;
            if j < es.len() - 1 {
                assert(front[j] == es[j]);
            }
        }
    }
}

proof fn lemma_slot_absent(es: Seq<Entry>, section: Seq<char>, key: Seq<char>)
    requires
        forall|j: int| 0 <= j < es.len() ==> !names(#[trigger] es[j], section, key),
    ensures
        !has_slot(entries_doc(es), section, key),
    decreases es.len(),
{
    if es.len() > 0 {
        let front = es.drop_last();
        assert forall|j: int| 0 <= j < front.len() implies !names(#[trigger] front[j], section, key) by {
            assert(front[j] == es[j]);
        }
        lemma_slot_absent(front, section, key);
        assert(!names(es[es.len() - 1], section, key));
    }
}

proof fn lemma_slot_present(es: Seq<Entry>, section: Seq<char>, key: Seq<char>, i: int)
    requires
        is_last_for(es, section, key, i),
    ensures
        has_slot(entries_doc(es), section, key),
        entries_doc(es)[section][key] == slot_view(es[i].slot),
    decreases es.len(),
{
    if i < es.len() - 1 {
        let front = es.drop_last();
        assert(front[i] == es[i]);
        assert forall|j: int| i < j < front.len() implies !names(#[trigger] front[j], section, key) by {
            assert(front[j] == es[j]);
        }
        lemma_slot_present(front, section, key, i);
        assert(!names(es[es.len() - 1], section, key));
    }
}

proof fn lemma_with_slot_twice(
    doc: DocumentView,
    section: Seq<char>,
    key: Seq<char>,
    a: Option<Seq<char>>,
    b: Option<Seq<char>>,
)
    ensures
        with_slot(with_slot(doc, section, key, a), section, key, b) == with_slot(
            doc,
            section,
            key,
            b,
        ),
{
    assert(section_of(doc, section).insert(key, a).insert(key, b) == section_of(
        doc,
        section,
    ).insert(key, b));
}

proof fn lemma_with_slot_swap(
    doc: DocumentView,
    s1: Seq<char>,
    k1: Seq<char>,
    a: Option<Seq<char>>,
    s2: Seq<char>,
    k2: Seq<char>,
    b: Option<Seq<char>>,
)
    requires
        !(s1 == s2 && k1 == k2),
    ensures
        with_slot(with_slot(doc, s1, k1, a), s2, k2, b) == with_slot(
            with_slot(doc, s2, k2, b),
            s1,
            k1,
            a,
        ),
{
    let left = with_slot(with_slot(doc, s1, k1, a), s2, k2, b);
    let right = with_slot(with_slot(doc, s2, k2, b), s1, k1, a);
    if s1 == s2 {
        assert(section_of(doc, s1).insert(k1, a).insert(k2, b) == section_of(doc, s1).insert(
            k2,
            b,
        ).insert(k1, a));
        assert(left == right);
    } else {
        assert(left == right);
    }
}

proof fn lemma_slot_overwrite(
    es: Seq<Entry>,
    ts: Seq<Entry>,
    section: Seq<char>,
    key: Seq<char>,
    i: int,
    slot: Option<Seq<char>>,
)
    requires
        is_last_for(es, section, key, i),
        ts.len() == es.len(),
        names(ts[i], section, key),
        slot_view(ts[i].slot) == slot,
        forall|j: int| 0 <= j < es.len() && j != i ==> ts[j] == es[j],
    ensures
        entries_doc(ts) == with_slot(entries_doc(es), section, key, slot),
    decreases es.len(),
{
    let front = es.drop_last();
    let tfront = ts.drop_last();
    if i == es.len() - 1 {
        assert(tfront == front);
        lemma_with_slot_twice(entries_doc(front), section, key, slot_view(es[i].slot), slot);
    } else {
        assert(ts.last() == es.last());
        assert(front[i] == es[i]);
        assert(tfront[i] == ts[i]);
        assert forall|j: int| i < j < front.len() implies !names(#[trigger] front[j], section, key) by {
            assert(front[j] == es[j]);
        }
        assert forall|j: int| 0 <= j < front.len() && j != i implies tfront[j] == front[j] by {
            assert(tfront[j] == ts[j]);
            assert(front[j] == es[j]);
        }
        lemma_slot_overwrite(front, tfront, section, key, i, slot);
        assert(!names(es[es.len() - 1], section, key));
        lemma_with_slot_swap(
            entries_doc(front),
            section,
            key,
            slot,
            es.last().section@,
            es.last().key@,
            slot_view(es.last().slot),
        );
    }
}

/// Where a search for a key of a section ended.
enum Found {
    At(usize),
    SectionOnly,
    Nothing,
}

impl View for ConfigDocument {
    type V = DocumentView;

    closed spec fn view(&self) -> DocumentView {
        entries_doc(self.entries@)
    }
}

impl ConfigDocument {
    /// A document without sections.
    pub fn new() -> (doc: Self)
        ensures
            doc@ == Map::<Seq<char>, Map<Seq<char>, Option<Seq<char>>>>::empty(),
    {
        ConfigDocument { entries: Vec::new() }
    }

    fn find(&self, section: &String, key: &String) -> (r: Found)
        ensures
            match r {
                Found::At(i) => is_last_for(self.entries@, section@, key@, i as int),
                Found::SectionOnly => self@.contains_key(section@) && !has_slot(
                    self@,
                    section@,
                    key@,
                ),
                Found::Nothing => !self@.contains_key(section@),
            },
    {
        let mut seen = false;
        let mut i: usize = self.entries.len();
        while i > 0
            invariant
                i <= self.entries@.len(),
                forall|j: int|
                    i <= j < self.entries@.len() ==> !names(
                        #[trigger] self.entries@[j],
                        section@,
                        key@,
                    ),
                seen <==> exists|j: int|
                    i <= j < self.entries@.len() && (#[trigger] self.entries@[j]).section@
                        == section@,
            decreases i,
        {
            i -= 1;
            if self.entries[i].section == *section {
                if self.entries[i].key == *key {
                    return Found::At(i);
                }
                seen = true;
                assert(self.entries@[i as int].section@ == section@);
            }
        }
        proof {
            lemma_section_known(self.entries@, section@);
            lemma_slot_absent(self.entries@, section@, key@);
        }
        if seen {
            Found::SectionOnly
        } else {
            Found::Nothing
        }
    }

    /// The text stored for `key` in `section`.
    pub fn get(&self, section: &str, key: &str) -> (r: Result<&String, ConfigLookupError>)
        ensures
            match r {
                Ok(text) => lookup(self@, section@, key@) == Ok::<Seq<char>, ConfigLookupError>(
                    text@,
                ),
                Err(e) => lookup(self@, section@, key@) == Err::<Seq<char>, ConfigLookupError>(e),
            },
    {
        let s = section.to_owned();
        let k = key.to_owned();
        match self.find(&s, &k) {
            Found::At(i) => {
                proof {
                    lemma_slot_present(self.entries@, section@, key@, i as int);
                }
                match &self.entries[i].slot {
                    Some(text) => Ok(text),
                    None => Err(ConfigLookupError::KeyHasNoValue),
                }
            },
            Found::SectionOnly => Err(ConfigLookupError::KeyNotFound),
            Found::Nothing => Err(ConfigLookupError::SectionNotFound),
        }
    }

    /// Gives `key` in `section` the slot `slot`, making the section if it is
    /// missing, and hands back the slot that the key had before.
    pub fn set(&mut self, section: &str, key: &str, slot: Option<String>) -> (r: Option<
        Option<String>,
    >)
        ensures
            final(self)@ == with_slot(old(self)@, section@, key@, slot_view(slot)),
            match r {
                Some(before) => has_slot(old(self)@, section@, key@) && slot_view(before) == old(
                    self,
                )@[section@][key@],
                None => !has_slot(old(self)@, section@, key@),
            },
    {
        let s = section.to_owned();
        let k = key.to_owned();
        match self.find(&s, &k) {
            Found::At(i) => {
                proof {
                    lemma_slot_present(self.entries@, section@, key@, i as int);
                }
                let mut held = slot;
                std::mem::swap(&mut self.entries[i].slot, &mut held);
                proof {
                    lemma_slot_overwrite(
                        old(self).entries@,
                        self.entries@,
                        section@,
                        key@,
                        i as int,
                        slot_view(slot),
                    );
                }
                Some(held)
            },
            _ => {
                self.entries.push(Entry { section: s, key: k, slot });
                assert(self.entries@.drop_last() == old(self).entries@);
                None
            },
        }
    }

    /// Whether the document has a section of this name.
    pub fn has_section(&self, section: &str) -> (r: bool)
        ensures
            r == self@.contains_key(section@),
    {
        let s = section.to_owned();
        let mut i: usize = 0;
        while i < self.entries.len()
            invariant
                i <= self.entries@.len(),
                s@ == section@,
                forall|j: int| 0 <= j < i ==> (#[trigger] self.entries@[j]).section@ != s@,
            decreases self.entries@.len() - i,
        {
            if self.entries[i].section == s {
                proof {
                    assert(self.entries@[i as int].section@ == section@);
                    lemma_section_known(self.entries@, section@);
                }
                return true;
            }
            i += 1;
        }
        proof {
            lemma_section_known(self.entries@, section@);
        }
        false
    }
}

} // verus!
