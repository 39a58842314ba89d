//! The font service's books: which assets it knows, which families, and under
//! which other names a family goes.
//!
//! Family names and aliases are held without regard to case.

use vstd::prelude::*;
use crate::search::{
    first_match, lemma_first_match, lemma_first_match_absent, lemma_first_match_found,
};
use crate::text::{folded_case, fold_case, same_text, starts_with};

verus! {

/// The broad kinds of font families.
#[derive(Clone, Copy, Debug, PartialEq, Eq, Structural)]
pub enum GenericFontFamily {
    Serif,
    SansSerif,
    Monospace,
    Cursive,
    Fantasy,
    SystemUi,
    Emoji,
    Math,
    Fangsong,
}

/// One face of a family: the asset that holds it, and its place in the asset.
#[derive(Clone, Copy, Debug, PartialEq, Eq)]
pub struct Typeface {
    pub asset_id: u32,
    pub font_index: u32,
}

/// Some typefaces, in the order in which they were added.
#[derive(Debug)]
pub struct TypefaceCollection {
    pub faces: Vec<Typeface>,
}

impl TypefaceCollection {
    /// A collection without typefaces.
    pub fn new() -> (collection: TypefaceCollection)
        ensures
            collection.faces@.len() == 0,
    {
        TypefaceCollection { faces: Vec::new() }
    }

    /// Whether the collection holds no typeface.
    pub fn is_empty(&self) -> (empty: bool)
        ensures
            empty == (self.faces@.len() == 0),
    {
        self.faces.len() == 0
    }

    /// Adds a typeface at the end.
    pub fn add_typeface(&mut self, typeface: Typeface)
        ensures
            final(self).faces@ == old(self).faces@.push(typeface),
    {
        self.faces.push(typeface);
    }
}

/// Accepts the path that is `path`.
pub open spec fn is_text(path: Seq<char>) -> spec_fn(String) -> bool {
    |known: String| known@ == path
}

/// The assets that the service knows, each under the id that it was given
/// when its path was first seen. Ids are given in turn, from 0.
#[derive(Debug)]
pub struct AssetCollection {
    paths: Vec<String>,
}

impl AssetCollection {
    /// The paths of the assets; the asset with the id `n` is at `n`.
    pub closed spec fn paths(&self) -> Seq<String> {
        self.paths@
    }

    /// The id under which the asset at `path` is known, if it is known.
    pub open spec fn id_of(&self, path: Seq<char>) -> Option<int> {
        first_match(self.paths(), is_text(path))
    }

    /// Whether the collection is in order: every asset has an id, and no path
    /// is held twice.
    pub closed spec fn wf(&self) -> bool {
        &&& self.paths@.len() <= u32::MAX
        &&& forall|i: int, j: int|
            0 <= i < j < self.paths@.len() ==> self.paths@[i]@ != self.paths@[j]@
    }

    /// A collection without assets.
    pub fn new() -> (assets: AssetCollection)
        ensures
            assets.wf(),
            assets.paths().len() == 0,
    {
        AssetCollection { paths: Vec::new() }
    }

    /// The id of the asset at `path`: the one it has, or else the next free
    /// one, under which it is known from now on. Returns nothing where all ids
    /// are given away, and changes nothing then.
    #[verifier::loop_isolation(false)]
    pub fn add_or_get_asset_id(&mut self, path: &str) -> (id: Option<u32>)
        requires
            old(self).wf(),
        ensures
            final(self).wf(),
            match old(self).id_of(path@) {
                Some(known) => id == Some(known as u32) && final(self).paths() == old(self).paths(),
                None => if old(self).paths().len() < u32::MAX {
                    &&& id == Some(old(self).paths().len() as u32)
                    &&& final(self).paths().len() == old(self).paths().len() + 1
                    &&& final(self).paths().drop_last() == old(self).paths()
                    &&& final(self).paths().last()@ == path@
                } else {
                    id is None && final(self).paths() == old(self).paths()
                },
            },
    {
        let mut at: usize = 0;
        while at < self.paths.len()
            invariant
                at <= self.paths@.len() <= u32::MAX,
                forall|j: int| 0 <= j < at ==> !is_text(path@)(#[trigger] self.paths@[j]),
            decreases self.paths@.len() - at,
        {
            if same_text(self.paths[at].as_str(), path) {
                proof {
                    lemma_first_match_found(self.paths@, is_text(path@), at as int);
                }
                return Some(at as u32);
            }
            at += 1;
        }
        proof {
            lemma_first_match_absent(self.paths@, is_text(path@));
        }
        if self.paths.len() >= u32::MAX as usize {
            return None;
        }
        let id: u32 = self.paths.len() as u32;
        let ghost before = self.paths@;
        self.paths.push(path.to_owned());
        assert(self.paths@.drop_last() =~= before);
        assert forall|i: int, j: int| 0 <= i < j < self.paths@.len() implies self.paths@[i]@
            != self.paths@[j]@ by {
            assert(self.paths@[i] == before[i]);
            if j < before.len() {
                assert(self.paths@[j] == before[j]);
            } else {
                assert(!is_text(path@)(before[i]));
            }
        }
        Some(id)
    }

    /// The path of the asset with the id `id`, if an asset has it.
    pub fn path_of(&self, id: u32) -> (path: Option<&String>)
        ensures
            match path {
                Some(path) => id < self.paths().len() && *path == self.paths()[id as int],
                None => id >= self.paths().len(),
            },
    {
        if (id as usize) < self.paths.len() {
            Some(&self.paths[id as usize])
        } else {
            None
        }
    }
}

/// A font family: its name as it was first given, its faces, and its kind.
#[derive(Debug)]
pub struct FontFamily {
    pub name: String,
    pub faces: TypefaceCollection,
    pub generic_family: Option<GenericFontFamily>,
}

impl FontFamily {
    /// A family without faces.
    pub fn new(name: String, generic_family: Option<GenericFontFamily>) -> (family: FontFamily)
        ensures
            family.name == name,
            family.generic_family == generic_family,
            family.faces.faces@.len() == 0,
    {
        FontFamily { name, faces: TypefaceCollection::new(), generic_family }
    }
}

/// What a name stands for: a family, or another name of one.
#[derive(Debug)]
pub enum FamilyOrAlias {
    Family(FontFamily),
    /// The key of the family that the name is an alias of.
    Alias(String),
}

/// A name that the service knows, by its key, and what it stands for.
#[derive(Debug)]
pub struct FamilyEntry {
    /// The name, without regard to case.
    pub key: String,
    pub value: FamilyOrAlias,
}

/// Why the fonts cannot be taken in or the service cannot start.
#[derive(Clone, Copy, Debug, PartialEq, Eq, Structural)]
pub enum FontError {
    /// There is no fallback font.
    NoFallbackFont,
    /// The name of a family is known as an alias already.
    FamilyIsAlias,
    /// The alias is known as the name of a family already.
    AliasIsFamily,
    /// The alias is known as an alias of another family already.
    AliasOfOther,
    /// No family has that name.
    NoSuchFamily,
}

/// The failures of the experimental interface.
#[derive(Clone, Copy, Debug, PartialEq, Eq, Structural)]
pub enum ExperimentalError {
    NotFound,
    Internal,
}

/// Accepts the entry under the key `key`.
pub open spec fn keyed(key: Seq<char>) -> spec_fn(FamilyEntry) -> bool {
    |entry: FamilyEntry| entry.key@ == key
}

/// The fonts that the service knows.
#[derive(Debug)]
pub struct FontService {
    assets: AssetCollection,
    /// The names of families and their aliases.
    families: Vec<FamilyEntry>,
    /// The typefaces to fall back on, whatever family was asked for.
    fallback_collection: TypefaceCollection,
}

/// Whether `after` is `before` with the typeface `typeface` added to the
/// family at `at`, and everything else as it was.
pub open spec fn with_face(
    before: Seq<FamilyEntry>,
    after: Seq<FamilyEntry>,
    at: int,
    typeface: Typeface,
) -> bool {
    &&& 0 <= at < before.len()
    &&& after.len() == before.len()
    &&& forall|i: int| 0 <= i < before.len() && i != at ==> #[trigger] after[i] == before[i]
    &&& after[at].key == before[at].key
    &&& match (before[at].value, after[at].value) {
        (FamilyOrAlias::Family(old_family), FamilyOrAlias::Family(new_family)) => {
            &&& new_family.name == old_family.name
            &&& new_family.generic_family == old_family.generic_family
            &&& new_family.faces.faces@ == old_family.faces.faces@.push(typeface)
        },
        _ => false,
    }
}

impl FontService {
    /// The names that the service holds, and what each stands for.
    pub closed spec fn entries(&self) -> Seq<FamilyEntry> {
        self.families@
    }

    /// The typefaces to fall back on.
    pub closed spec fn fallback(&self) -> Seq<Typeface> {
        self.fallback_collection.faces@
    }

    /// The assets that the service knows.
    pub closed spec fn asset_paths(&self) -> Seq<String> {
        self.assets.paths()
    }

    /// Where the entry under `key` stands.
    pub open spec fn position(&self, key: Seq<char>) -> Option<int> {
        first_match(self.entries(), keyed(key))
    }

    /// Where the family stands that the name under `key` leads to: the family
    /// of that name, or the family that the name is an alias of.
    pub open spec fn family_position(&self, key: Seq<char>) -> Option<int> {
        match self.position(key) {
            Some(at) => match self.entries()[at].value {
                FamilyOrAlias::Family(_) => Some(at),
                FamilyOrAlias::Alias(target) => self.position(target@),
            },
            None => None,
        }
    }

    /// Whether every alias is the alias of a family that is held.
    pub open spec fn aliases_lead_to_families(&self) -> bool {
        forall|i: int|
            0 <= i < self.entries().len() ==> match (#[trigger] self.entries()[i]).value {
                FamilyOrAlias::Family(_) => true,
                FamilyOrAlias::Alias(target) => match self.position(target@) {
                    Some(at) => self.entries()[at].value is Family,
                    None => false,
                },
            }
    }

    /// Whether the books are in order: no name is held twice, every alias is
    /// the alias of a family that is held, and every asset has an id.
    pub closed spec fn wf(&self) -> bool {
        &&& self.assets.wf()
        &&& forall|i: int, j: int|
            0 <= i < j < self.families@.len() ==> self.families@[i].key@
                != self.families@[j].key@
        &&& self.aliases_lead_to_families()
    }

    /// A service that knows no fonts.
    pub fn new() -> (service: FontService)
        ensures
            service.wf(),
            service.entries().len() == 0,
            service.fallback().len() == 0,
            service.asset_paths().len() == 0,
    {
        FontService {
            assets: AssetCollection::new(),
            families: Vec::new(),
            fallback_collection: TypefaceCollection::new(),
        }
    }

    /// The names that the service holds, and what each stands for.
    pub fn families(&self) -> (families: &Vec<FamilyEntry>)
        ensures
            families@ == self.entries(),
    {
        &self.families
    }

    /// The typefaces to fall back on.
    pub fn fallback_collection(&self) -> (collection: &TypefaceCollection)
        ensures
            collection.faces@ == self.fallback(),
    {
        &self.fallback_collection
    }

    /// The assets that the service knows.
    pub fn assets(&self) -> (assets: &AssetCollection)
        ensures
            assets.paths() == self.asset_paths(),
    {
        &self.assets
    }

    /// The id of the asset at `path`: the one it has, or else the next free
    /// one. Returns nothing where all ids are given away.
    pub fn add_or_get_asset_id(&mut self, path: &str) -> (id: Option<u32>)
        requires
            old(self).wf(),
        ensures
            final(self).wf(),
            final(self).entries() == old(self).entries(),
            final(self).fallback() == old(self).fallback(),
            match first_match(old(self).asset_paths(), is_text(path@)) {
                Some(known) => id == Some(known as u32) && final(self).asset_paths() == old(
                    self,
                ).asset_paths(),
                None => if old(self).asset_paths().len() < u32::MAX {
                    &&& id == Some(old(self).asset_paths().len() as u32)
                    &&& final(self).asset_paths().len() == old(self).asset_paths().len() + 1
                    &&& final(self).asset_paths().drop_last() == old(self).asset_paths()
                    &&& final(self).asset_paths().last()@ == path@
                } else {
                    id is None && final(self).asset_paths() == old(self).asset_paths()
                },
            },
    {
        self.assets.add_or_get_asset_id(path)
    }

    /// Checks that the service can start: it needs a font to fall back on.
    pub fn check_can_start(&self) -> (checked: Result<(), FontError>)
        ensures
            checked == if self.fallback().len() == 0 {
                Err::<(), FontError>(FontError::NoFallbackFont)
            } else {
                Ok::<(), FontError>(())
            },
    {
        if self.fallback_collection.is_empty() {
            return Err(FontError::NoFallbackFont);
        }
        Ok(())
    }

    /// Where the entry under the key `key` stands.
    pub fn find(&self, key: &str) -> (found: Option<usize>)
        ensures
            match found {
                Some(at) => at < self.entries().len() && self.position(key@) == Some(at as int),
                None => self.position(key@) is None,
            },
    {
        let mut at: usize = 0;
        while at < self.families.len()
            invariant
                at <= self.families@.len(),
                forall|j: int| 0 <= j < at ==> !keyed(key@)(#[trigger] self.families@[j]),
            decreases self.families@.len() - at,
        {
            if same_text(self.families[at].key.as_str(), key) {
                proof {
                    lemma_first_match_found(self.families@, keyed(key@), at as int);
                }
                return Some(at);
            }
            at += 1;
        }
        proof {
            lemma_first_match_absent(self.families@, keyed(key@));
        }
        None
    }

    /// Takes in the family called `name`, of the kind `generic_family`, unless
    /// a family of that name is held already: then nothing changes. A name
    /// that is held as an alias is refused.
    pub fn add_family(&mut self, name: &str, generic_family: Option<GenericFontFamily>) -> (added:
        Result<(), FontError>)
        requires
            old(self).wf(),
        ensures
            final(self).wf(),
            final(self).asset_paths() == old(self).asset_paths(),
            final(self).fallback() == old(self).fallback(),
            match old(self).position(folded_case(name@)) {
                Some(at) => {
                    &&& final(self).entries() == old(self).entries()
                    &&& added == if old(self).entries()[at].value is Family {
                        Ok::<(), FontError>(())
                    } else {
                        Err::<(), FontError>(FontError::FamilyIsAlias)
                    }
                },
                None => {
                    &&& added is Ok
                    &&& final(self).entries().len() == old(self).entries().len() + 1
                    &&& final(self).entries().drop_last() == old(self).entries()
                    &&& final(self).entries().last().key@ == folded_case(name@)
                    &&& match final(self).entries().last().value {
                        FamilyOrAlias::Family(family) => {
                            &&& family.name@ == name@
                            &&& family.generic_family == generic_family
                            &&& family.faces.faces@.len() == 0
                        },
                        FamilyOrAlias::Alias(_) => false,
                    }
                },
            },
    {
        let key = fold_case(name);
        match self.find(key.as_str()) {
            Some(at) => {
                match &self.families[at].value {
                    FamilyOrAlias::Family(_) => Ok(()),
                    FamilyOrAlias::Alias(_) => Err(FontError::FamilyIsAlias),
                }
            },
            None => {
                let ghost before = self.families@;
                let family = FontFamily::new(name.to_owned(), generic_family);
                self.families.push(FamilyEntry { key, value: FamilyOrAlias::Family(family) });
                proof {
                    assert(self.families@.drop_last() =~= before);
                    Self::lemma_appended(*old(self), *self);
                }
                Ok(())
            },
        }
    }

    /// Books that hold one more name than well-kept books did, a new one that
    /// leads to a family, are well kept.
    proof fn lemma_appended(before: FontService, after: FontService)
        requires
            before.wf(),
            after.assets == before.assets,
            after.families@.len() == before.families@.len() + 1,
            after.families@.drop_last() == before.families@,
            before.position(after.families@.last().key@) is None,
            match after.families@.last().value {
                FamilyOrAlias::Family(_) => true,
                FamilyOrAlias::Alias(target) => match before.position(target@) {
                    Some(at) => before.families@[at].value is Family,
                    None => false,
                },
            },
        ensures
            after.wf(),
    {
        let olds = before.families@;
        let news = after.families@;
        assert forall|j: int| 0 <= j < olds.len() implies #[trigger] news[j] == olds[j] by {
            assert(news.drop_last()[j] == news[j]);
        }
        lemma_first_match(olds, keyed(news.last().key@));
        assert forall|key: Seq<char>| before.position(key) is Some implies after.position(key)
            == before.position(key) by {
            lemma_first_match(olds, keyed(key));
            let at = first_match(olds, keyed(key)).unwrap();
            assert forall|j: int| 0 <= j < at implies !keyed(key)(#[trigger] news[j]) by {
                assert(!keyed(key)(olds[j]));
            }
            assert(keyed(key)(news[at]));
            lemma_first_match_found(news, keyed(key), at);
        }
        assert forall|i: int| 0 <= i < news.len() implies match (#[trigger] news[i]).value {
            FamilyOrAlias::Family(_) => true,
            FamilyOrAlias::Alias(target) => match after.position(target@) {
                Some(at) => news[at].value is Family,
                None => false,
            },
        } by {
            if i < olds.len() {
                assert(news[i] == olds[i]);
            }
            match news[i].value {
                FamilyOrAlias::Family(_) => {},
                FamilyOrAlias::Alias(target) => {
                    assert(before.position(target@) is Some);
                    let at = before.position(target@).unwrap();
                    lemma_first_match(olds, keyed(target@));
                    assert(after.position(target@) == Some(at));
                    assert(news[at] == olds[at]);
                },
            }
        }
    }

    /// Books in which a family of well-kept books has got one more typeface
    /// are well kept.
    proof fn lemma_face_added(before: FontService, after: FontService, at: int, typeface: Typeface)
        requires
            before.wf(),
            after.assets == before.assets,
            with_face(before.families@, after.families@, at, typeface),
        ensures
            after.wf(),
    {
        let olds = before.families@;
        let news = after.families@;
        assert forall|i: int| 0 <= i < olds.len() implies (#[trigger] news[i]).key@
            == olds[i].key@ by {}
        assert forall|key: Seq<char>| after.position(key) == before.position(key) by {
            lemma_first_match(olds, keyed(key));
            lemma_first_match(news, keyed(key));
            match first_match(olds, keyed(key)) {
                Some(found) => {
                    assert(keyed(key)(news[found]));
                    assert forall|j: int| 0 <= j < found implies !keyed(key)(
                        #[trigger] news[j],
                    ) by {
                        assert(!keyed(key)(olds[j]));
                    }
                    lemma_first_match_found(news, keyed(key), found);
                },
                None => {
                    assert forall|j: int| 0 <= j < news.len() implies !keyed(key)(
                        #[trigger] news[j],
                    ) by {
                        assert(!keyed(key)(olds[j]));
                    }
                    lemma_first_match_absent(news, keyed(key));
                },
            }
        }
        assert forall|i: int| 0 <= i < news.len() implies match (#[trigger] news[i]).value {
            FamilyOrAlias::Family(_) => true,
            FamilyOrAlias::Alias(target) => match after.position(target@) {
                Some(to) => news[to].value is Family,
                None => false,
            },
        } by {
            if i != at {
                assert(news[i] == olds[i]);
                match olds[i].value {
                    FamilyOrAlias::Family(_) => {},
                    FamilyOrAlias::Alias(target) => {
                        let to = before.position(target@).unwrap();
                        lemma_first_match(olds, keyed(target@));
                        assert(after.position(target@) == Some(to));
                        if to != at {
                            assert(news[to] == olds[to]);
                        }
                    },
                }
            }
        }
    }

    /// Adds a typeface to the family called `family`, and to the fallback
    /// fonts where `fallback` says so. The name must be that of a family
    /// itself, not an alias.
    pub fn add_typeface(&mut self, family: &str, typeface: Typeface, fallback: bool) -> (added:
        Result<(), FontError>)
        requires
            old(self).wf(),
        ensures
            final(self).wf(),
            final(self).asset_paths() == old(self).asset_paths(),
            match old(self).position(folded_case(family@)) {
                Some(at) if old(self).entries()[at].value is Family => {
                    &&& added is Ok
                    &&& with_face(old(self).entries(), final(self).entries(), at, typeface)
                    &&& final(self).fallback() == if fallback {
                        old(self).fallback().push(typeface)
                    } else {
                        old(self).fallback()
                    }
                },
                _ => {
                    &&& added == Err::<(), FontError>(FontError::NoSuchFamily)
                    &&& final(self).entries() == old(self).entries()
                    &&& final(self).fallback() == old(self).fallback()
                },
            },
    {
        let key = fold_case(family);
        let at: usize = match self.find(key.as_str()) {
            Some(at) => at,
            None => {
                return Err(FontError::NoSuchFamily);
            },
        };
        match &self.families[at].value {
            FamilyOrAlias::Family(_) => {},
            FamilyOrAlias::Alias(_) => {
                return Err(FontError::NoSuchFamily);
            },
        }
        let ghost before = self.families@;
        let entry = self.families.remove(at);
        let changed = match entry.value {
            FamilyOrAlias::Family(held) => {
                let mut faces = held.faces;
                faces.add_typeface(typeface);
                FamilyEntry {
                    key: entry.key,
                    value: FamilyOrAlias::Family(
                        FontFamily { name: held.name, faces, generic_family: held.generic_family },
                    ),
                }
            },
            FamilyOrAlias::Alias(target) => FamilyEntry {
                key: entry.key,
                value: FamilyOrAlias::Alias(target),
            },
        };
        self.families.insert(at, changed);
        if fallback {
            self.fallback_collection.add_typeface(typeface);
        }
        proof {
            assert(with_face(before, self.families@, at as int, typeface));
            Self::lemma_face_added(*old(self), *self, at as int, typeface);
        }
        Ok(())
    }

    /// Takes in `alias` as another name of the family called `family`, which
    /// must be held. Nothing changes where the alias is held as an alias of
    /// that family already. An alias that is held as the name of a family, or
    /// as an alias of another family, is refused.
    pub fn add_alias(&mut self, alias: &str, family: &str) -> (added: Result<(), FontError>)
        requires
            old(self).wf(),
        ensures
            final(self).wf(),
            final(self).asset_paths() == old(self).asset_paths(),
            final(self).fallback() == old(self).fallback(),
            match old(self).position(folded_case(family@)) {
                None => added == Err::<(), FontError>(FontError::NoSuchFamily)
                    && final(self).entries() == old(self).entries(),
                Some(target) => if !(old(self).entries()[target].value is Family) {
                    added == Err::<(), FontError>(FontError::NoSuchFamily)
                        && final(self).entries() == old(self).entries()
                } else {
                    match old(self).position(folded_case(alias@)) {
                        Some(at) => {
                            &&& final(self).entries() == old(self).entries()
                            &&& added == match old(self).entries()[at].value {
                                FamilyOrAlias::Family(_) => Err::<(), FontError>(
                                    FontError::AliasIsFamily,
                                ),
                                FamilyOrAlias::Alias(other) => if other@ == folded_case(family@) {
                                    Ok::<(), FontError>(())
                                } else {
                                    Err::<(), FontError>(FontError::AliasOfOther)
                                },
                            }
                        },
                        None => {
                            &&& added is Ok
                            &&& final(self).entries().len() == old(self).entries().len() + 1
                            &&& final(self).entries().drop_last() == old(self).entries()
                            &&& final(self).entries().last().key@ == folded_case(alias@)
                            &&& match final(self).entries().last().value {
                                FamilyOrAlias::Alias(to) => to@ == folded_case(family@),
                                FamilyOrAlias::Family(_) => false,
                            }
                        },
                    }
                },
            },
    {
        let family_key = fold_case(family);
        match self.find(family_key.as_str()) {
            None => {
                return Err(FontError::NoSuchFamily);
            },
            Some(target) => {
                match &self.families[target].value {
                    FamilyOrAlias::Family(_) => {},
                    FamilyOrAlias::Alias(_) => {
                        return Err(FontError::NoSuchFamily);
                    },
                }
            },
        }
        let alias_key = fold_case(alias);
        match self.find(alias_key.as_str()) {
            Some(at) => match &self.families[at].value {
                FamilyOrAlias::Family(_) => Err(FontError::AliasIsFamily),
                FamilyOrAlias::Alias(other) => {
                    if *other == family_key {
                        Ok(())
                    } else {
                        Err(FontError::AliasOfOther)
                    }
                },
            },
            None => {
                let ghost before = self.families@;
                self.families.push(
                    FamilyEntry { key: alias_key, value: FamilyOrAlias::Alias(family_key) },
                );
                proof {
                    assert(self.families@.drop_last() =~= before);
                    Self::lemma_appended(*old(self), *self);
                }
                Ok(())
            },
        }
    }

    /// The family that `name` leads to, without regard to case: the family of
    /// that name, or the one that the name is an alias of.
    pub fn match_family(&self, name: &str) -> (family: Option<&FontFamily>)
        requires
            self.wf(),
        ensures
            match family {
                Some(family) => match self.family_position(folded_case(name@)) {
                    Some(at) => self.entries()[at].value == FamilyOrAlias::Family(*family),
                    None => false,
                },
                None => self.position(folded_case(name@)) is None,
            },
    {
        let key = fold_case(name);
        let at: usize = match self.find(key.as_str()) {
            Some(at) => at,
            None => {
                return None;
            },
        };
        match &self.families[at].value {
            FamilyOrAlias::Family(family) => Some(family),
            FamilyOrAlias::Alias(target) => {
                let target_at = self.find(target.as_str());
                assert(target_at is Some);
                match &self.families[target_at.unwrap()].value {
                    FamilyOrAlias::Family(family) => Some(family),
                    FamilyOrAlias::Alias(_) => None,
                }
            },
        }
    }

    /// Whether the fallback fonts are to be tried for a request: no typeface
    /// of the family asked for matched, and the request does not insist on
    /// that family.
    pub fn tries_fallback(matched: bool, exact_family: bool) -> (tries: bool)
        ensures
            tries == (!matched && !exact_family),
    {
        !matched && !exact_family
    }

    /// The kind of family to fall back on: the one that the request names, or
    /// else the kind of the family that was asked for.
    pub fn fallback_family(
        requested: Option<GenericFontFamily>,
        matched_family: Option<&FontFamily>,
    ) -> (kind: Option<GenericFontFamily>)
        ensures
            kind == match requested {
                Some(kind) => Some(kind),
                None => match matched_family {
                    Some(family) => family.generic_family,
                    None => None,
                },
            },
    {
        match requested {
            Some(kind) => Some(kind),
            None => match matched_family {
                Some(family) => family.generic_family,
                None => None,
            },
        }
    }
}

/// What a client is told where an asset could not be had: that there is none
/// where the failure says so, that something went wrong inside otherwise.
pub fn asset_error_kind(message: &str) -> (kind: ExperimentalError)
    ensures
        kind == if "No asset found"@.is_prefix_of(message@) {
            ExperimentalError::NotFound
        } else {
            ExperimentalError::Internal
        },
{
    if starts_with(message, "No asset found") {
        ExperimentalError::NotFound
    } else {
        ExperimentalError::Internal
    }
}

} // verus!
