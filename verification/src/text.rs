//! Localized strings: a text per locale, with a fallback to the default locale.

use vstd::prelude::*;

verus! {

/// The text of one locale.
pub struct Translation {
    pub locale: String,
    pub text: String,
}

/// A string that may be available in several locales.
///
/// Its view is the map from locale to text. A text added later for the same
/// locale replaces the earlier one.
pub struct Translatable {
    entries: Vec<Translation>,
}

/// A translatable string whose texts hold markup.
pub struct MarkupTranslatable {
    pub texts: Translatable,
}

/// The locale whose text is used when the requested one has none.
pub open spec fn default_locale() -> Seq<char> {
    seq!['C']
}

/// The map that a sequence of translations stands for: later entries win.
pub open spec fn texts_of(entries: Seq<Translation>) -> Map<Seq<char>, Seq<char>>
    decreases entries.len(),
{
    if entries.len() == 0 {
        Map::empty()
    } else {
        texts_of(entries.drop_last()).insert(entries.last().locale@, entries.last().text@)
    }
}

/// The text shown for `locale`: that locale's text, else the default
/// locale's, else the empty string.
pub open spec fn resolved(texts: Map<Seq<char>, Seq<char>>, locale: Seq<char>) -> Seq<char> {
    if texts.contains_key(locale) {
        texts[locale]
    } else if texts.contains_key(default_locale()) {
        texts[default_locale()]
    } else {
        Seq::empty()
    }
}

proof fn lemma_texts_found(entries: Seq<Translation>, i: int, locale: Seq<char>)
    requires
        0 <= i < entries.len(),
        entries[i].locale@ == locale,
        forall|k: int| i < k < entries.len() ==> (#[trigger] entries[k]).locale@ != locale,
    ensures
        texts_of(entries).contains_key(locale),
        texts_of(entries)[locale] == entries[i].text@,
    decreases entries.len(),
{
    if i < entries.len() - 1 {
        let rest = entries.drop_last();
        assert(entries.last() == entries[entries.len() - 1]);
        lemma_texts_found(rest, i, locale);
    }
}

proof fn lemma_texts_missing(entries: Seq<Translation>, locale: Seq<char>)
    requires
        forall|k: int| 0 <= k < entries.len() ==> (#[trigger] entries[k]).locale@ != locale,
    ensures
        !texts_of(entries).contains_key(locale),
    decreases entries.len(),
{
    if entries.len() > 0 {
        assert(entries.last() == entries[entries.len() - 1]);
        lemma_texts_missing(entries.drop_last(), locale);
    }
}

impl View for Translatable {
    type V = Map<Seq<char>, Seq<char>>;

    closed spec fn view(&self) -> Map<Seq<char>, Seq<char>> {
        texts_of(self.entries@)
    }
}

impl Translatable {
    /// A string with no text in any locale.
    pub fn new() -> (r: Self)
        ensures
            r@ == Map::<Seq<char>, Seq<char>>::empty(),
    {
        Translatable { entries: Vec::new() }
    }

    /// A string with `text` for the default locale only.
    pub fn with_default(text: &str) -> (r: Self)
        ensures
            r@ == Map::<Seq<char>, Seq<char>>::empty().insert(default_locale(), text@),
    {
        let mut t = Translatable::new();
        t.add_for_locale(None, text);
        t
    }

    /// Sets the text of `locale`, or of the default locale where none is given.
    pub fn add_for_locale(&mut self, locale: Option<&str>, text: &str)
        ensures
            final(self)@ == old(self)@.insert(
                match locale {
                    Some(l) => l@,
                    None => default_locale(),
                },
                text@,
            ),
    {
        let key = match locale {
            Some(l) => l.to_owned(),
            None => {
                proof {
                    reveal_strlit("C");
                    assert("C"@ =~= default_locale());
                }
                "C".to_owned()
            },
        };
        let ghost before = self.entries@;
        self.entries.push(Translation { locale: key, text: text.to_owned() });
        proof {
            assert(self.entries@.drop_last() =~= before);
        }
    }

    /// The text of `locale`, if it has one.
    pub fn get_for_locale(&self, locale: &str) -> (r: Option<&String>)
        ensures
            r is Some <==> self@.contains_key(locale@),
            r matches Some(s) ==> s@ == self@[locale@],
    {
        let wanted = locale.to_owned();
        let mut i: usize = self.entries.len();
        while i > 0
            invariant
                i <= self.entries.len(),
                wanted@ == locale@,
                forall|k: int|
                    i <= k < self.entries.len() ==> (#[trigger] self.entries@[k]).locale@
                        != locale@,
            decreases i,
        {
            i = i - 1;
            if self.entries[i].locale == wanted {
                proof {
                    lemma_texts_found(self.entries@, i as int, locale@);
                }
                return Some(&self.entries[i].text);
            }
        }
        proof {
            lemma_texts_missing(self.entries@, locale@);
        }
        None
    }

    /// The text of the default locale, if it has one.
    pub fn get_default(&self) -> (r: Option<&String>)
        ensures
            r is Some <==> self@.contains_key(default_locale()),
            r matches Some(s) ==> s@ == self@[default_locale()],
    {
        proof {
            reveal_strlit("C");
            assert("C"@ =~= default_locale());
        }
        self.get_for_locale("C")
    }
}

/// The text of `translatable` to show for `locale`.
pub fn get_translatable<'a>(translatable: &'a Translatable, locale: &str) -> (r: &'a str)
    ensures
        r@ == resolved(translatable@, locale@),
{
    match translatable.get_for_locale(locale) {
        Some(some) => some.as_str(),
        None => match translatable.get_default() {
            Some(some) => some.as_str(),
            None => {
                proof {
                    reveal_strlit("");
                    assert(""@ =~= Seq::<char>::empty());
                }
                ""
            },
        },
    }
}

/// The marked-up text of `translatable` to show for `locale`.
pub fn get_markup_translatable<'a>(translatable: &'a MarkupTranslatable, locale: &str) -> (r:
    &'a str)
    ensures
        r@ == resolved(translatable.texts@, locale@),
{
    get_translatable(&translatable.texts, locale)
}

} // verus!
