use vstd::prelude::*;
use crate::text::pairs_view;
use crate::yaml::{parse_string_map, yaml_string_map};

verus! {

/// A named palette: a human display name, an author, and the sixteen color
/// slots `base00` through `base0F`, in that order.
#[derive(Debug)]
pub struct Scheme {
    /// The palette's human label (the `scheme` key of its source file).
    pub display_name: String,
    /// The palette's author (the `author` key of its source file).
    pub author: String,
    /// The sixteen color values, `slots[i]` holding the slot `base0<i>`.
    pub slots: Vec<String>,
}

/// The mathematical value of a scheme.
pub ghost struct SchemeModel {
    pub display_name: Seq<char>,
    pub author: Seq<char>,
    pub slots: Seq<Seq<char>>,
}

impl View for Scheme {
    type V = SchemeModel;

    open spec fn view(&self) -> SchemeModel {
        SchemeModel {
            display_name: self.display_name@,
            author: self.author@,
            slots: self.slots@.map_values(|s: String| s@),
        }
    }
}

impl Scheme {
    /// A scheme is well formed when it carries exactly sixteen slots.
    pub open spec fn wf(&self) -> bool {
        self.slots@.len() == 16
    }
}

/// The key of the `i`-th color slot.
pub open spec fn slot_key(i: int) -> Seq<char> {
    if i == 0 { "base00"@ }
    else if i == 1 { "base01"@ }
    else if i == 2 { "base02"@ }
    else if i == 3 { "base03"@ }
    else if i == 4 { "base04"@ }
    else if i == 5 { "base05"@ }
    else if i == 6 { "base06"@ }
    else if i == 7 { "base07"@ }
    else if i == 8 { "base08"@ }
    else if i == 9 { "base09"@ }
    else if i == 10 { "base0A"@ }
    else if i == 11 { "base0B"@ }
    else if i == 12 { "base0C"@ }
    else if i == 13 { "base0D"@ }
    else if i == 14 { "base0E"@ }
    else { "base0F"@ }
}

/// The key of the `i`-th color slot, as a string slice.
pub fn slot_key_str(i: usize) -> (r: &'static str)
    requires
        i < 16,
    ensures
        r@ == slot_key(i as int),
{
    match i {
        0 => "base00",
        1 => "base01",
        2 => "base02",
        3 => "base03",
        4 => "base04",
        5 => "base05",
        6 => "base06",
        7 => "base07",
        8 => "base08",
        9 => "base09",
        10 => "base0A",
        11 => "base0B",
        12 => "base0C",
        13 => "base0D",
        14 => "base0E",
        _ => "base0F",
    }
}

/// The value under the first occurrence of `key` in `pairs`, if any.
pub open spec fn lookup(pairs: Seq<(Seq<char>, Seq<char>)>, key: Seq<char>) -> Option<Seq<char>>
    decreases pairs.len(),
{
    if pairs.len() == 0 {
        None
    } else if pairs[0].0 == key {
        Some(pairs[0].1)
    } else {
        lookup(pairs.drop_first(), key)
    }
}

proof fn lemma_lookup_skip(pairs: Seq<(Seq<char>, Seq<char>)>, key: Seq<char>, i: int)
    requires
        0 <= i <= pairs.len(),
        forall|j: int| 0 <= j < i ==> pairs[j].0 != key,
    ensures
        lookup(pairs, key) == lookup(pairs.skip(i), key),
    decreases i,
{
    if i > 0 {
        lemma_lookup_skip(pairs, key, i - 1);
        assert(pairs.skip(i - 1).drop_first() =~= pairs.skip(i));
        assert(pairs.skip(i - 1)[0] == pairs[i - 1]);
    } else {
        assert(pairs.skip(0) =~= pairs);
    }
}

/// Finds the value under the first occurrence of `key` in `pairs`.
pub fn find_value(pairs: &Vec<(String, String)>, key: &str) -> (r: Option<String>)
    ensures
        match r {
            Some(v) => lookup(pairs_view(pairs@), key@) == Some(v@),
            None => lookup(pairs_view(pairs@), key@) is None,
        },
{
    let k: String = key.to_owned();
    let ghost pv = pairs_view(pairs@);
    let mut i: usize = 0;
    while i < pairs.len()
        invariant
            pv == pairs_view(pairs@),
            pv.len() == pairs@.len(),
            forall|j: int| 0 <= j < pairs@.len() ==> #[trigger] pv[j] == (pairs@[j].0@, pairs@[j].1@),
            k@ == key@,
            0 <= i <= pairs@.len(),
            forall|j: int| 0 <= j < i ==> pv[j].0 != key@,
        decreases pairs@.len() - i,
    {
        if pairs[i].0 == k {
            proof {
                lemma_lookup_skip(pv, key@, i as int);
                assert(pv.skip(i as int)[0] == pv[i as int]);
            }
            return Some(pairs[i].1.clone());
        }
        i = i + 1;
    }
    proof {
        lemma_lookup_skip(pv, key@, pairs@.len() as int);
        assert(pv.skip(pv.len() as int) =~= Seq::<(Seq<char>, Seq<char>)>::empty());
    }
    None
}

/// True when the pairs of one parsed scheme document carry every required
/// key: `scheme`, `author`, and all sixteen color slots.
pub open spec fn scheme_pairs_ok(pairs: Seq<(Seq<char>, Seq<char>)>) -> bool {
    &&& lookup(pairs, "scheme"@) is Some
    &&& lookup(pairs, "author"@) is Some
    &&& forall|i: int| 0 <= i < 16 ==> #[trigger] lookup(pairs, slot_key(i)) is Some
}

/// The scheme described by well-shaped pairs.
pub open spec fn scheme_of_pairs(pairs: Seq<(Seq<char>, Seq<char>)>) -> SchemeModel {
    SchemeModel {
        display_name: lookup(pairs, "scheme"@).unwrap(),
        author: lookup(pairs, "author"@).unwrap(),
        slots: Seq::new(16, |i: int| lookup(pairs, slot_key(i)).unwrap()),
    }
}

/// The `i`-th required key of a scheme document: `scheme`, `author`, then
/// the sixteen color slots in order.
pub open spec fn required_key(i: int) -> Seq<char> {
    if i == 0 {
        "scheme"@
    } else if i == 1 {
        "author"@
    } else {
        slot_key(i - 2)
    }
}

/// True when `i` is the position of the first required key the pairs lack.
pub open spec fn missing_key_at(pairs: Seq<(Seq<char>, Seq<char>)>, i: int) -> bool {
    &&& 0 <= i < 18
    &&& lookup(pairs, required_key(i)) is None
    &&& forall|j: int| 0 <= j < i ==> lookup(pairs, #[trigger] required_key(j)) is Some
}

/// Builds a scheme from the key/value pairs of one parsed scheme document,
/// or reports the first required key that is missing, named in the error
/// message.
pub fn scheme_from_pairs(pairs: &Vec<(String, String)>) -> (r: Result<Scheme, String>)
    ensures
        match r {
            Ok(s) => scheme_pairs_ok(pairs_view(pairs@)) && s.wf() && s@ == scheme_of_pairs(
                pairs_view(pairs@),
            ),
            Err(m) => {
                &&& !scheme_pairs_ok(pairs_view(pairs@))
                &&& exists|i: int|
                    #[trigger] missing_key_at(pairs_view(pairs@), i) && m@
                        == "missing required key: "@ + required_key(i)
            },
        },
{
    let ghost pv = pairs_view(pairs@);
    let display_name = match find_value(pairs, "scheme") {
        Some(v) => v,
        None => {
            let mut msg: String = "missing required key: ".to_owned();
            msg.append("scheme");
            proof {
                assert(missing_key_at(pv, 0));
            }
            return Err(msg);
        },
    };
    let author = match find_value(pairs, "author") {
        Some(v) => v,
        None => {
            let mut msg: String = "missing required key: ".to_owned();
            msg.append("author");
            proof {
                assert(missing_key_at(pv, 1));
            }
            return Err(msg);
        },
    };
    let mut slots: Vec<String> = Vec::new();
    let mut i: usize = 0;
    while i < 16
        invariant
            pv == pairs_view(pairs@),
            0 <= i <= 16,
            slots@.len() == i,
            lookup(pv, "scheme"@) is Some,
            lookup(pv, "author"@) is Some,
            forall|j: int| 0 <= j < i ==> #[trigger] lookup(pv, slot_key(j)) is Some,
            forall|j: int| 0 <= j < i ==> #[trigger] slots@[j]@ == lookup(pv, slot_key(j)).unwrap(),
        decreases 16 - i,
    {
        let key = slot_key_str(i);
        match find_value(pairs, key) {
            Some(v) => {
                slots.push(v);
            },
            None => {
                let mut msg: String = "missing required key: ".to_owned();
                msg.append(key);
                proof {
                    assert forall|j: int|
                        0 <= j < 2 + i as int implies lookup(
                        pv,
                        #[trigger] required_key(j),
                    ) is Some by {
                        if j >= 2 {
                            assert(lookup(pv, slot_key(j - 2)) is Some);
                        }
                    }
                    assert(missing_key_at(pv, 2 + i as int));
                }
                return Err(msg);
            },
        }
        i = i + 1;
    }
    let s = Scheme { display_name, author, slots };
    proof {
        assert(s@.slots =~= scheme_of_pairs(pv).slots);
    }
    Ok(s)
}

/// True when a scheme file's whole content parses into a well-shaped scheme.
pub open spec fn scheme_content_ok(content: Seq<char>) -> bool {
    &&& yaml_string_map(content) is Some
    &&& scheme_pairs_ok(yaml_string_map(content).unwrap())
}

/// The scheme described by well-shaped content.
pub open spec fn scheme_of_content(content: Seq<char>) -> SchemeModel {
    scheme_of_pairs(yaml_string_map(content).unwrap())
}

/// Parses one scheme file's content: the document must be a flat string
/// mapping holding `scheme`, `author` and the sixteen color slots. When
/// the document parses but a required key is absent, the error message
/// names the first one missing; otherwise it carries the parser's cause.
pub fn parse_scheme(content: &str) -> (r: Result<Scheme, String>)
    ensures
        match r {
            Ok(s) => scheme_content_ok(content@) && s.wf() && s@ == scheme_of_content(content@),
            Err(m) => {
                &&& !scheme_content_ok(content@)
                &&& yaml_string_map(content@) matches Some(p) ==> exists|i: int|
                    #[trigger] missing_key_at(p, i) && m@ == "missing required key: "@
                        + required_key(i)
            },
        },
{
    match parse_string_map(content) {
        Ok(pairs) => match scheme_from_pairs(&pairs) {
            Ok(s) => Ok(s),
            Err(m) => Err(m),
        },
        Err(m) => Err(m),
    }
}

} // verus!

use crate::error::BuildError;
use crate::text::split_name;
use crate::text::{split_file_name, str_eq};
use vstd::pervasive::VecAdditionalExecFns;

verus! {

/// Why one scheme file made the load give up.
pub ghost enum FileFault {
    /// The file name holds no extension separator.
    BadName,
    /// The file's extension is not the expected structured-data extension.
    BadExt,
    /// The file's content does not parse into a well-shaped scheme.
    BadContent,
}

/// The fault of one scheme file, if it has one.
pub open spec fn file_fault(file: (Seq<char>, Seq<char>)) -> Option<FileFault> {
    match split_name(file.0) {
        None => Some(FileFault::BadName),
        Some((stem, ext)) => if ext != "yaml"@ {
            Some(FileFault::BadExt)
        } else if !scheme_content_ok(file.1) {
            Some(FileFault::BadContent)
        } else {
            None
        },
    }
}

/// The store entry a faultless scheme file contributes: its stem as the
/// scheme name, and the scheme its content describes.
pub open spec fn file_entry(file: (Seq<char>, Seq<char>)) -> (Seq<char>, SchemeModel) {
    (split_name(file.0).unwrap().0, scheme_of_content(file.1))
}

/// True when `entries` holds no two entries under one name.
pub open spec fn unique_names(entries: Seq<(Seq<char>, SchemeModel)>) -> bool {
    forall|i: int, j: int| 0 <= i < j < entries.len() ==> entries[i].0 != entries[j].0
}

/// True when some entry carries `name`.
pub open spec fn has_name(entries: Seq<(Seq<char>, SchemeModel)>, name: Seq<char>) -> bool {
    exists|i: int| 0 <= i < entries.len() && entries[i].0 == name
}

/// The position of the entry carrying `name`; meaningful when `has_name`
/// holds and the names are unique.
pub open spec fn name_index(entries: Seq<(Seq<char>, SchemeModel)>, name: Seq<char>) -> int {
    choose|i: int| 0 <= i < entries.len() && entries[i].0 == name
}

/// Inserts a scheme under a name: a later file with an already-seen name
/// silently replaces the earlier scheme, keeping the entry's position.
pub open spec fn upsert(
    entries: Seq<(Seq<char>, SchemeModel)>,
    name: Seq<char>,
    s: SchemeModel,
) -> Seq<(Seq<char>, SchemeModel)> {
    if has_name(entries, name) {
        entries.update(name_index(entries, name), (name, s))
    } else {
        entries.push((name, s))
    }
}

/// Folds the scheme files into a store, left to right, stopping at the first
/// faulty file; an error carries the position of that file.
pub open spec fn load_fold(
    acc: Seq<(Seq<char>, SchemeModel)>,
    files: Seq<(Seq<char>, Seq<char>)>,
    base: int,
) -> Result<Seq<(Seq<char>, SchemeModel)>, (int, FileFault)>
    decreases files.len(),
{
    if files.len() == 0 {
        Ok(acc)
    } else {
        match file_fault(files[0]) {
            Some(f) => Err((base, f)),
            None => load_fold(
                upsert(acc, file_entry(files[0]).0, file_entry(files[0]).1),
                files.drop_first(),
                base + 1,
            ),
        }
    }
}

/// The store a list of faultless scheme files yields.
pub open spec fn store_of_files(files: Seq<(Seq<char>, Seq<char>)>) -> Result<
    Seq<(Seq<char>, SchemeModel)>,
    (int, FileFault),
> {
    load_fold(Seq::empty(), files, 0)
}

/// The view of an in-memory store.
pub open spec fn store_view(s: Seq<(String, Scheme)>) -> Seq<(Seq<char>, SchemeModel)> {
    s.map_values(|p: (String, Scheme)| (p.0@, p.1@))
}

/// How a load error shows up in the returned error value.
pub open spec fn load_error_matches(
    files: Seq<(Seq<char>, Seq<char>)>,
    at: int,
    fault: FileFault,
    e: BuildError,
) -> bool {
    match fault {
        FileFault::BadName => e matches BuildError::Config { message } && message@
            == "invalid scheme file name: "@ + files[at].0,
        FileFault::BadExt => e matches BuildError::Config { message } && message@
            == "scheme files must have a 'yaml' extension: "@ + files[at].0,
        FileFault::BadContent => e matches BuildError::Parse { path, message } && path@
            == files[at].0 && (yaml_string_map(files[at].1) matches Some(p) ==> exists|i: int|
            #[trigger] missing_key_at(p, i) && message@ == "missing required key: "@
                + required_key(i)),
    }
}

/// Replaces the scheme under `name`, or appends a new entry.
fn upsert_entry(store: &mut Vec<(String, Scheme)>, name: String, s: Scheme)
    requires
        unique_names(store_view(old(store)@)),
        forall|k: int| 0 <= k < old(store)@.len() ==> (#[trigger] old(store)@[k]).1.wf(),
        s.wf(),
    ensures
        store_view(final(store)@) == upsert(store_view(old(store)@), name@, s@),
        unique_names(store_view(final(store)@)),
        forall|k: int| 0 <= k < final(store)@.len() ==> (#[trigger] final(store)@[k]).1.wf(),
{
    let ghost sv = store_view(store@);
    let mut i: usize = 0;
    while i < store.len()
        invariant
            store@ == old(store)@,
            forall|k: int| 0 <= k < old(store)@.len() ==> (#[trigger] old(store)@[k]).1.wf(),
            s.wf(),
            unique_names(store_view(old(store)@)),
            sv == store_view(store@),
            sv.len() == store@.len(),
            forall|j: int|
                0 <= j < store@.len() ==> #[trigger] sv[j] == (store@[j].0@, store@[j].1@),
            unique_names(sv),
            0 <= i <= store@.len(),
            forall|j: int| 0 <= j < i ==> sv[j].0 != name@,
        decreases store@.len() - i,
    {
        if store[i].0 == name {
            proof {
                assert(sv[i as int] == (store@[i as int].0@, store@[i as int].1@));
                assert(sv[i as int].0 == name@);
                assert(has_name(sv, name@));
                let w = name_index(sv, name@);
                assert(0 <= w < sv.len() && sv[w].0 == name@);
                if w < i as int {
                    assert(sv[w].0 != sv[i as int].0);
                } else if w > i as int {
                    assert(sv[i as int].0 != sv[w].0);
                }
                assert(w == i as int);
            }
            store.set(i, (name, s));
            proof {
                assert(store@ == old(store)@.update(i as int, (name, s)));
                assert forall|k: int| 0 <= k < store@.len() implies (#[trigger] store@[k]).1.wf() by {
                    if k == i as int {
                        assert(store@[k] == (name, s));
                    } else {
                        assert(store@[k] == old(store)@[k]);
                        assert(old(store)@[k].1.wf());
                    }
                }
                assert(store_view(store@) =~= upsert(sv, name@, s@));
            }
            return ;
        }
        i = i + 1;
    }
    proof {
        assert(!has_name(sv, name@));
    }
    store.push((name, s));
    proof {
        assert(store@ == old(store)@.push((name, s)));
        assert(forall|k: int| 0 <= k < old(store)@.len() ==> store@[k] == old(store)@[k]);
        assert(store_view(store@) =~= upsert(sv, name@, s@));
    }
}

/// Loads the scheme store from the scheme directory's regular files, each
/// given as its file name and its content, in the order the caller found
/// them. The first faulty file aborts the whole load.
pub fn load_schemes(files: &Vec<(String, String)>) -> (r: Result<
    Vec<(String, Scheme)>,
    BuildError,
>)
    ensures
        match r {
            Ok(store) => {
                &&& store_of_files(pairs_view(files@)) == Ok::<_, (int, FileFault)>(
                    store_view(store@),
                )
                &&& forall|k: int| 0 <= k < store@.len() ==> (#[trigger] store@[k]).1.wf()
                &&& unique_names(store_view(store@))
            },
            Err(e) => exists|at: int, fault: FileFault|
                store_of_files(pairs_view(files@)) == Err::<Seq<(Seq<char>, SchemeModel)>, _>(
                    (at, fault),
                ) && #[trigger] load_error_matches(pairs_view(files@), at, fault, e),
        },
{
    let ghost fv = pairs_view(files@);
    let mut store: Vec<(String, Scheme)> = Vec::new();
    let mut i: usize = 0;
    proof {
        assert(fv.skip(0) =~= fv);
        assert(store_view(store@) =~= Seq::<(Seq<char>, SchemeModel)>::empty());
    }
    while i < files.len()
        invariant
            fv == pairs_view(files@),
            fv.len() == files@.len(),
            forall|j: int|
                0 <= j < files@.len() ==> #[trigger] fv[j] == (files@[j].0@, files@[j].1@),
            0 <= i <= files@.len(),
            unique_names(store_view(store@)),
            forall|k: int| 0 <= k < store@.len() ==> (#[trigger] store@[k]).1.wf(),
            load_fold(store_view(store@), fv.skip(i as int), i as int) == store_of_files(fv),
        decreases files@.len() - i,
    {
        let ghost file = fv[i as int];
        proof {
            assert(fv.skip(i as int)[0] == file);
            assert(fv.skip(i as int).drop_first() =~= fv.skip(i as int + 1));
        }
        let name = &files[i].0;
        let (stem, ext) = match split_file_name(name.as_str()) {
            Some(p) => p,
            None => {
                let mut msg: String = "invalid scheme file name: ".to_owned();
                msg.append(name.as_str());
                let e = BuildError::Config { message: msg };
                proof {
                    assert(file_fault(file) == Some(FileFault::BadName));
                    assert(store_of_files(fv) == Err::<Seq<(Seq<char>, SchemeModel)>, _>(
                        (i as int, FileFault::BadName),
                    ));
                    assert(load_error_matches(fv, i as int, FileFault::BadName, e));
                }
                return Err(e);
            },
        };
        if !str_eq(ext.as_str(), "yaml") {
            let mut msg: String = "scheme files must have a 'yaml' extension: ".to_owned();
            msg.append(name.as_str());
            let e = BuildError::Config { message: msg };
            proof {
                assert(file_fault(file) == Some(FileFault::BadExt));
                assert(store_of_files(fv) == Err::<Seq<(Seq<char>, SchemeModel)>, _>(
                    (i as int, FileFault::BadExt),
                ));
                assert(load_error_matches(fv, i as int, FileFault::BadExt, e));
            }
            return Err(e);
        }
        let scheme = match parse_scheme(files[i].1.as_str()) {
            Ok(s) => s,
            Err(m) => {
                let e = BuildError::Parse { path: name.clone(), message: m };
                proof {
                    assert(file_fault(file) == Some(FileFault::BadContent));
                    assert(store_of_files(fv) == Err::<Seq<(Seq<char>, SchemeModel)>, _>(
                        (i as int, FileFault::BadContent),
                    ));
                    assert(load_error_matches(fv, i as int, FileFault::BadContent, e));
                }
                return Err(e);
            },
        };
        proof {
            assert(file_fault(file) is None);
            assert(file_entry(file) == (stem@, scheme@));
        }
        upsert_entry(&mut store, stem, scheme);
        i = i + 1;
    }
    proof {
        assert(fv.skip(fv.len() as int) =~= Seq::<(Seq<char>, Seq<char>)>::empty());
    }
    Ok(store)
}

} // verus!
