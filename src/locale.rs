//! Translation catalogs: one table of texts per locale, with a default locale to fall back on.

use vstd::prelude::*;

use crate::edit::{replace_all, replaced_all};
use crate::text::push_str;

verus! {

/// A locale's texts, as plain values: its name and its (key, text) entries.
pub type LocaleView = (Seq<char>, Seq<(Seq<char>, Seq<char>)>);

/// `k` is the first position whose first part is `name`.
pub open spec fn is_first_named<T>(s: Seq<(Seq<char>, T)>, name: Seq<char>, k: int) -> bool {
    &&& 0 <= k < s.len()
    &&& s[k].0 == name
    &&& forall|j: int| 0 <= j < k ==> #[trigger] s[j].0 != name
}

/// The part that goes with the first occurrence of `name`, if any.
pub open spec fn lookup<T>(s: Seq<(Seq<char>, T)>, name: Seq<char>) -> Option<T> {
    if exists|k: int| is_first_named(s, name, k) {
        Some(s[choose|k: int| is_first_named(s, name, k)].1)
    } else {
        None
    }
}

/// The text shown for a key that the locale lacks.
pub open spec fn missing_key() -> Seq<char> {
    seq!['K', 'E', 'Y', '_', 'N', 'O', 'T', '_', 'F', 'O', 'U', 'N', 'D']
}

/// The texts of `locale`, or of the default locale when `locale` is not loaded.
pub open spec fn table_for(c: CatalogView, locale: Seq<char>) -> Option<Seq<(Seq<char>, Seq<char>)>> {
    match lookup(c.locales, locale) {
        Some(t) => Some(t),
        None => lookup(c.locales, c.default_locale),
    }
}

/// The translation of `key` in `locale`: `None` when neither that locale nor the default one
/// is loaded; the missing-key text when the table lacks the key.
pub open spec fn translate_spec(c: CatalogView, key: Seq<char>, locale: Seq<char>) -> Option<Seq<char>> {
    match table_for(c, locale) {
        None => None,
        Some(t) => match lookup(t, key) {
            Some(v) => Some(v),
            None => Some(missing_key()),
        },
    }
}

/// The placeholder that stands for an argument in a text.
pub open spec fn placeholder(name: Seq<char>) -> Seq<char> {
    seq!['$', '{'] + name + seq!['}']
}

/// The text with the placeholder of each argument, in order, replaced by its value.
pub open spec fn filled(text: Seq<char>, args: Seq<(Seq<char>, Seq<char>)>) -> Seq<char>
    decreases args.len(),
{
    if args.len() == 0 {
        text
    } else {
        replaced_all(filled(text, args.drop_last()), placeholder(args.last().0), args.last().1)
    }
}

/// A catalog, as plain values.
pub struct CatalogView {
    pub default_locale: Seq<char>,
    pub locales: Seq<LocaleView>,
}

/// The loaded locales and the default one.
#[derive(Clone)]
pub struct Catalog {
    default_locale: String,
    locales: Vec<(String, Vec<(String, String)>)>,
}

/// The entries of a table, as plain values.
pub open spec fn entries_view(t: Seq<(String, String)>) -> Seq<(Seq<char>, Seq<char>)> {
    t.map_values(|e: (String, String)| (e.0@, e.1@))
}

/// The locales of a catalog, as plain values.
pub open spec fn locales_view(ls: Seq<(String, Vec<(String, String)>)>) -> Seq<LocaleView> {
    ls.map_values(|l: (String, Vec<(String, String)>)| (l.0@, entries_view(l.1@)))
}

impl View for Catalog {
    type V = CatalogView;

    closed spec fn view(&self) -> CatalogView {
        CatalogView { default_locale: self.default_locale@, locales: locales_view(self.locales@) }
    }
}

fn find_named<T>(s: &Vec<(String, T)>, name: &str, Ghost(names): Ghost<Seq<Seq<char>>>) -> (r: Option<usize>)
    requires
        names.len() == s@.len(),
        forall|j: int| 0 <= j < s@.len() ==> #[trigger] names[j] == s@[j].0@,
    ensures
        r is Some <==> exists|k: int| 0 <= k < names.len() && names[k] == name@,
        r matches Some(k) ==> k < names.len() && names[k as int] == name@ && forall|j: int| 0 <= j < k
            ==> #[trigger] names[j] != name@,
{
    let target = String::from_str(name);
    let mut i: usize = 0;
    while i < s.len()
        invariant
            names.len() == s@.len(),
            forall|j: int| 0 <= j < s@.len() ==> #[trigger] names[j] == s@[j].0@,
            target@ == name@,
            i <= s@.len(),
            forall|j: int| 0 <= j < i ==> #[trigger] names[j] != name@,
        decreases s@.len() - i,
    {
        if s[i].0 == target {
            proof {
                assert(names[i as int] == s@[i as int].0@);
            }
            return Some(i);
        }
        i = i + 1;
    }
    None
}

/// The first parts of a sequence of pairs.
pub open spec fn firsts<T>(s: Seq<(Seq<char>, T)>) -> Seq<Seq<char>> {
    s.map_values(|e: (Seq<char>, T)| e.0)
}

proof fn lemma_first_named_from<T>(s: Seq<(Seq<char>, T)>, name: Seq<char>, k: int)
    requires
        0 <= k < s.len(),
        firsts(s)[k] == name,
        forall|j: int| 0 <= j < k ==> #[trigger] firsts(s)[j] != name,
    ensures
        is_first_named(s, name, k),
        lookup(s, name) == Some(s[k].1),
{
    assert forall|j: int| 0 <= j < k implies #[trigger] s[j].0 != name by {
        assert(firsts(s)[j] == s[j].0);
    }
    lemma_lookup_at(s, name, k);
}

proof fn lemma_none_named<T>(s: Seq<(Seq<char>, T)>, name: Seq<char>)
    requires
        !(exists|k: int| 0 <= k < firsts(s).len() && firsts(s)[k] == name),
    ensures
        lookup(s, name) is None,
{
    assert forall|j: int| 0 <= j < s.len() implies #[trigger] s[j].0 != name by {
        assert(firsts(s)[j] == s[j].0);
    }
    lemma_lookup_none(s, name);
}

proof fn lemma_lookup_at<T>(s: Seq<(Seq<char>, T)>, name: Seq<char>, k: int)
    requires
        is_first_named(s, name, k),
    ensures
        lookup(s, name) == Some(s[k].1),
{
    let c = choose|c: int| is_first_named(s, name, c);
    if c < k {
        assert(s[c].0 != name);
    } else if c > k {
        assert(s[k].0 != name);
    }
}

proof fn lemma_lookup_none<T>(s: Seq<(Seq<char>, T)>, name: Seq<char>)
    requires
        forall|j: int| 0 <= j < s.len() ==> #[trigger] s[j].0 != name,
    ensures
        lookup(s, name) is None,
{
    assert forall|k: int| !is_first_named(s, name, k) by {
        if 0 <= k < s.len() {
            assert(s[k].0 != name);
        }
    }
}

impl Catalog {
    /// An empty catalog that falls back on `default_locale`.
    pub fn with(default_locale: String) -> (r: Catalog)
        ensures
            r@ == (CatalogView { default_locale: default_locale@, locales: Seq::empty() }),
    {
        let r = Catalog { default_locale, locales: Vec::new() };
        assert(r@.locales =~= Seq::<LocaleView>::empty());
        r
    }

    /// The names of the loaded locales, in the order they were first loaded.
    pub fn locales(&self) -> (r: Vec<String>)
        ensures
            r@.len() == self@.locales.len(),
            forall|i: int| 0 <= i < r@.len() ==> #[trigger] r@[i]@ == self@.locales[i].0,
    {
        let mut r: Vec<String> = Vec::new();
        let mut i: usize = 0;
        while i < self.locales.len()
            invariant
                i <= self@.locales.len(),
                r@.len() == i,
                forall|j: int| 0 <= j < i ==> #[trigger] r@[j]@ == self@.locales[j].0,
            decreases self@.locales.len() - i,
        {
            r.push(self.locales[i].0.clone());
            i = i + 1;
        }
        r
    }

    /// Loads the texts of a locale, replacing those it had.
    pub fn insert(&mut self, name: String, entries: Vec<(String, String)>)
        ensures
            final(self)@.default_locale == old(self)@.default_locale,
            lookup(final(self)@.locales, name@) == Some(entries_view(entries@)),
            forall|other: Seq<char>| other != name@ ==> lookup(#[trigger] final(self)@.locales, other)
                == lookup(old(self)@.locales, other),
    {
        let ghost before = self@.locales;
        let ghost names = firsts(before);
        let found = find_named(&self.locales, name.as_str(), Ghost(names));
        match found {
            Some(k) => {
                let key = self.locales[k].0.clone();
                self.locales.set(k, (key, entries));
                proof {
                    let after = self@.locales;
                    assert(after =~= before.update(k as int, (before[k as int].0, entries_view(entries@))));
                    lemma_first_named_from(before, name@, k as int);
                    assert(is_first_named(after, name@, k as int));
                    lemma_lookup_at(after, name@, k as int);
                    assert forall|other: Seq<char>| other != name@ implies lookup(#[trigger] self@.locales, other)
                        == lookup(before, other) by {
                        assert forall|j: int| 0 <= j < after.len() implies (#[trigger] after[j]).0 == before[j].0 && (
                        j != k ==> after[j] == before[j]) by {}
                        if exists|c: int| is_first_named(before, other, c) {
                            let c = choose|c: int| is_first_named(before, other, c);
                            assert(c != k);
                            assert(is_first_named(after, other, c));
                            lemma_lookup_at(after, other, c);
                            lemma_lookup_at(before, other, c);
                        } else {
                            assert forall|c: int| !is_first_named(after, other, c) by {
                                if is_first_named(after, other, c) {
                                    assert forall|j: int| 0 <= j < c implies #[trigger] before[j].0 != other by {
                                        assert(after[j].0 != other);
                                        assert(after[j].0 == before[j].0);
                                    }
                                    assert(after[c].0 == before[c].0);
                                    assert(is_first_named(before, other, c));
                                }
                            }
                        }
                    }
                }
            },
            None => {
                let ghost ev = entries_view(entries@);
                let ghost n = name@;
                self.locales.push((name, entries));
                proof {
                    let after = self@.locales;
                    assert(after =~= before.push((n, ev)));
                    lemma_none_named(before, n);
                    assert forall|j: int| 0 <= j < before.len() implies #[trigger] before[j].0 != n by {
                        assert(names[j] == before[j].0);
                    }
                    assert(is_first_named(after, n, before.len() as int));
                    lemma_lookup_at(after, n, before.len() as int);
                    assert forall|other: Seq<char>| other != n implies lookup(#[trigger] self@.locales, other)
                        == lookup(before, other) by {
                        if exists|c: int| is_first_named(before, other, c) {
                            let c = choose|c: int| is_first_named(before, other, c);
                            assert(is_first_named(after, other, c));
                            lemma_lookup_at(after, other, c);
                            lemma_lookup_at(before, other, c);
                        } else {
                            assert forall|c: int| !is_first_named(after, other, c) by {
                                if is_first_named(after, other, c) && c < before.len() {
                                    assert forall|j: int| 0 <= j < c implies #[trigger] before[j].0 != other by {
                                        assert(after[j].0 != other);
                                        assert(after[j] == before[j]);
                                    }
                                    assert(after[c] == before[c]);
                                    assert(is_first_named(before, other, c));
                                }
                            }
                        }
                    }
                }
            },
        }
    }

    /// Unloads every locale.
    pub fn clear(&mut self)
        ensures
            final(self)@ == (CatalogView { locales: Seq::empty(), ..old(self)@ }),
    {
        self.locales = Vec::new();
        assert(self@.locales =~= Seq::<LocaleView>::empty());
    }

    fn table(&self, locale: &str) -> (r: Option<usize>)
        ensures
            match r {
                Some(k) => k < self@.locales.len() && table_for(self@, locale@) == Some(self@.locales[k as int].1),
                None => table_for(self@, locale@) is None,
            },
    {
        let ghost names = firsts(self@.locales);
        match find_named(&self.locales, locale, Ghost(names)) {
            Some(k) => {
                proof {
                    lemma_first_named_from(self@.locales, locale@, k as int);
                }
                Some(k)
            },
            None => {
                proof {
                    lemma_none_named(self@.locales, locale@);
                }
                match find_named(&self.locales, self.default_locale.as_str(), Ghost(names)) {
                    Some(k) => {
                        proof {
                            lemma_first_named_from(self@.locales, self@.default_locale, k as int);
                        }
                        Some(k)
                    },
                    None => {
                        proof {
                            lemma_none_named(self@.locales, self@.default_locale);
                        }
                        None
                    },
                }
            },
        }
    }

    /// The translation of `key` in `locale`, falling back on the default locale when `locale`
    /// is not loaded; `None` when neither is; "KEY_NOT_FOUND" when the table lacks the key.
    pub fn translate_from_locale(&self, key: &str, locale: &str) -> (r: Option<String>)
        ensures
            match r {
                Some(t) => translate_spec(self@, key@, locale@) == Some(t@),
                None => translate_spec(self@, key@, locale@) is None,
            },
    {
        let k = match self.table(locale) {
            Some(k) => k,
            None => {
                return None;
            },
        };
        let table = &self.locales[k].1;
        let ghost t = entries_view(table@);
        let ghost names = firsts(t);
        assert(t == self@.locales[k as int].1);
        match find_named(table, key, Ghost(names)) {
            Some(i) => {
                proof {
                    lemma_first_named_from(t, key@, i as int);
                }
                Some(table[i].1.clone())
            },
            None => {
                proof {
                    lemma_none_named(t, key@);
                }
                let mut s = String::new();
                push_str(&mut s, "KEY_NOT_FOUND");
                proof {
                    reveal_strlit("KEY_NOT_FOUND");
                    assert(s@ =~= missing_key());
                }
                Some(s)
            },
        }
    }
}

/// The text with the placeholder "${name}" of each argument, in order, replaced by its value.
pub fn fill(text: String, args: &Vec<(String, String)>) -> (r: String)
    ensures
        r@ == filled(text@, entries_view(args@)),
{
    let ghost a = entries_view(args@);
    let mut result = text;
    let mut i: usize = 0;
    while i < args.len()
        invariant
            a == entries_view(args@),
            i <= args@.len(),
            result@ == filled(text@, a.subrange(0, i as int)),
        decreases args@.len() - i,
    {
        let mut name = String::new();
        push_str(&mut name, "${");
        push_str(&mut name, args[i].0.as_str());
        push_str(&mut name, "}");
        proof {
            reveal_strlit("${");
            reveal_strlit("}");
            assert(name@ =~= placeholder(a[i as int].0));
            assert(a.subrange(0, i as int + 1).drop_last() =~= a.subrange(0, i as int));
        }
        result = replace_all(result.as_str(), name.as_str(), args[i].1.as_str());
        i = i + 1;
    }
    assert(a.subrange(0, i as int) =~= a);
    result
}

} // verus!
