use vstd::prelude::*;
use crate::localization::Localization;

verus! {

/// The first catalog table for `locale` that holds `key`, and its text.
pub open spec fn first_match(cat: Seq<Localization>, locale: Seq<char>, key: Seq<char>) -> Option<
    String,
>
    decreases cat.len(),
{
    if cat.len() == 0 {
        None
    } else if cat[0].locale() == locale && (cat[0].runtime_map().contains_key(key)
        || cat[0].asset_map().contains_key(key)) {
        cat[0].text_for(key)
    } else {
        first_match(cat.drop_first(), locale, key)
    }
}

/// Resolves line identifiers to display text against the host's localization
/// catalog, with a fallback table consulted when the catalog yields no
/// translation.
///
/// The catalog models the host's global translation mechanism: one table per
/// installed translation, addressed by the currently active locale. As that
/// mechanism does, a lookup that finds nothing yields the identifier itself,
/// and a text equal to the identifier is taken as "no translation found".
pub struct TranslationServerTextProvider {
    locale: String,
    translations: Vec<Localization>,
    fallback_localization: Option<Localization>,
}

impl TranslationServerTextProvider {
    /// The currently active locale; the empty sequence is the unset sentinel.
    pub closed spec fn locale_spec(&self) -> Seq<char> {
        self.locale@
    }

    /// The installed translation tables, in installation order.
    pub closed spec fn catalog(&self) -> Seq<Localization> {
        self.translations@
    }

    /// The configured fallback table, if any.
    pub closed spec fn fallback(&self) -> Option<Localization> {
        match self.fallback_localization {
            Some(f) => Some(f),
            None => None,
        }
    }

    pub closed spec fn inv(&self) -> bool {
        &&& forall|i: int| 0 <= i < self.translations@.len() ==> (#[trigger] self.translations@[i]).inv()
        &&& match self.fallback_localization {
            Some(f) => f.inv(),
            None => true,
        }
    }

    /// What a resolution yields. The catalog is consulted first; when it
    /// yields nothing, or a text equal to the identifier itself, the fallback
    /// table answers instead — but only if one is configured, its locale is
    /// the active locale, and it actually holds the identifier. Any failing
    /// condition yields absence, never an error.
    pub open spec fn resolved_text(&self, id: Seq<char>) -> Option<String> {
        let primary = first_match(self.catalog(), self.locale_spec(), id);
        let translated = match primary {
            Some(s) => s@,
            None => id,
        };
        if translated == id {
            match self.fallback() {
                Some(f) => if f.locale() == self.locale_spec() && (f.runtime_map().contains_key(id)
                    || f.asset_map().contains_key(id)) {
                    f.text_for(id)
                } else {
                    None
                },
                None => None,
            }
        } else {
            primary
        }
    }

    /// A provider with an empty catalog, the unset locale, and the given
    /// fallback table.
    pub fn new(fallback_localization: Option<Localization>) -> (r: TranslationServerTextProvider)
        requires
            match fallback_localization {
                Some(f) => f.inv(),
                None => true,
            },
        ensures
            r.inv(),
            r.locale_spec() == Seq::<char>::empty(),
            r.catalog() == Seq::<Localization>::empty(),
            r.fallback() == fallback_localization,
    {
        TranslationServerTextProvider {
            locale: String::new(),
            translations: Vec::new(),
            fallback_localization,
        }
    }

    /// Installs a translation table into the catalog, as the host's
    /// localization mechanism would when it loads one.
    pub fn add_translation(&mut self, table: Localization)
        requires
            old(self).inv(),
            table.inv(),
        ensures
            final(self).inv(),
            final(self).catalog() == old(self).catalog().push(table),
            final(self).locale_spec() == old(self).locale_spec(),
            final(self).fallback() == old(self).fallback(),
    {
        self.translations.push(table);
    }

    /// Makes `locale` the active one.
    pub fn set_language(&mut self, locale: String)
        requires
            old(self).inv(),
        ensures
            final(self).inv(),
            final(self).locale_spec() == locale@,
            final(self).catalog() == old(self).catalog(),
            final(self).fallback() == old(self).fallback(),
    {
        self.locale = locale;
    }

    /// The active locale. Never fails: an unset locale is the empty string.
    pub fn get_language(&self) -> (r: String)
        ensures
            r@ == self.locale_spec(),
    {
        self.locale.clone()
    }

    /// Advisory pre-fetch notice; accepting it is a no-op here.
    pub fn accept_line_hints(&mut self, line_ids: &Vec<String>)
        ensures
            *final(self) == *old(self),
    {
        let _ = line_ids.len();
    }

    /// Resolves a line identifier to display text, with the fallback chain of
    /// [`Self::resolved_text`].
    pub fn get_text(&self, id: &String) -> (r: Option<String>)
        requires
            self.inv(),
        ensures
            r == self.resolved_text(id@),
    {
        let n = self.translations.len();
        let mut i: usize = 0;
        proof {
            assert(self.catalog().skip(0) =~= self.catalog());
        }
        while i < n
            invariant
                i <= n,
                self.inv(),
                n == self.translations@.len(),
                first_match(self.catalog(), self.locale_spec(), id@) == first_match(
                    self.catalog().skip(i as int),
                    self.locale_spec(),
                    id@,
                ),
            decreases n - i,
        {
            let ghost rest = self.catalog().skip(i as int);
            proof {
                assert(rest[0] == self.catalog()[i as int]);
                assert(rest.drop_first() =~= self.catalog().skip(i + 1 as int));
            }
            let table = &self.translations[i];
            if table.locale_code().eq(&self.locale) {
                match table.get_localized_string(id) {
                    Some(text) => {
                        if text.eq(id) {
                            return self.fallback_text(id);
                        }
                        return Some(text);
                    }
                    None => {}
                }
            }
            i = i + 1;
        }
        proof {
            assert(self.catalog().skip(n as int) =~= Seq::<Localization>::empty());
        }
        self.fallback_text(id)
    }

    /// The fallback side of the chain: answers only if a fallback table is
    /// configured, its locale is the active one, and it holds the identifier.
    fn fallback_text(&self, id: &String) -> (r: Option<String>)
        requires
            self.inv(),
        ensures
            r == (match self.fallback() {
                Some(f) => if f.locale() == self.locale_spec() && (f.runtime_map().contains_key(id@)
                    || f.asset_map().contains_key(id@)) {
                    f.text_for(id@)
                } else {
                    None::<String>
                },
                None => None::<String>,
            }),
    {
        match &self.fallback_localization {
            None => None,
            Some(f) => {
                if f.locale_code().eq(&self.locale) && f.contains_localized_string(id) {
                    f.get_localized_string(id)
                } else {
                    None
                }
            }
        }
    }

    /// True when the host mechanism has a translation table for the active
    /// locale, or the fallback table's locale is the active one. This gates
    /// whether line resolution is worth attempting at all.
    pub fn are_lines_available(&self) -> (r: bool)
        requires
            self.inv(),
        ensures
            r == ((exists|i: int|
                0 <= i < self.catalog().len() && (#[trigger] self.catalog()[i]).locale()
                    == self.locale_spec()) || (match self.fallback() {
                Some(f) => f.locale() == self.locale_spec(),
                None => false,
            })),
    {
        let n = self.translations.len();
        let mut i: usize = 0;
        while i < n
            invariant
                i <= n,
                n == self.translations@.len(),
                forall|j: int|
                    0 <= j < i ==> (#[trigger] self.catalog()[j]).locale() != self.locale_spec(),
            decreases n - i,
        {
            if self.translations[i].locale_code().eq(&self.locale) {
                proof {
                    assert((#[trigger] self.catalog()[i as int]).locale() == self.locale_spec());
                }
                return true;
            }
            i = i + 1;
        }
        match &self.fallback_localization {
            Some(f) => f.locale_code().eq(&self.locale),
            None => false,
        }
    }
}

/// Law: when the catalog's answer is the identifier itself — the host
/// mechanism's convention for "no translation found" — and a fallback table
/// for the active locale holds the identifier, resolution yields the
/// fallback's text; when the fallback's locale differs from the active one,
/// resolution yields absence.
pub proof fn lemma_fallback_resolution(p: TranslationServerTextProvider, id: Seq<char>, f: Localization)
    requires
        p.fallback() == Some(f),
        (match first_match(p.catalog(), p.locale_spec(), id) {
            Some(s) => s@ == id,
            None => true,
        }),
    ensures
        f.locale() == p.locale_spec() && (f.runtime_map().contains_key(id)
            || f.asset_map().contains_key(id)) ==> p.resolved_text(id) == f.text_for(id)
            && p.resolved_text(id) is Some,
        f.locale() != p.locale_spec() ==> p.resolved_text(id) is None,
{
}

} // verus!
