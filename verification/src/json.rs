//! The reading of JSON lockfiles (through `serde_json`), reduced to the
//! object members that the dependency scanner looks at.

use vstd::prelude::*;

use crate::models::views;

verus! {

/// The character views of a sequence of string slices.
pub open spec fn strs(v: Seq<&str>) -> Seq<Seq<char>> {
    v.map_values(|s: &str| s@)
}

/// What `serde_json` reads of the member `key` of the JSON document
/// `text`: when `text` is a JSON object whose member `key` is an object,
/// that object's members in the order of `serde_json`'s map, each as its
/// key and its value written back as JSON text; `None` otherwise.
pub uninterp spec fn json_members_of(text: Seq<char>, key: Seq<char>) -> Option<Seq<(Seq<char>, Seq<char>)>>;

/// Parses `text` with `serde_json::from_str` into a `serde_json::Value`,
/// takes its member `key` with `Value::get` and that member's object with
/// `Value::as_object`, and lists the object's members as (key, the value's
/// `to_string()`). The result is named `json_members_of`: which members
/// come back, and in which order, is left to `serde_json` and not stated.
#[verifier::external_body]
fn json_members(text: &str, key: &str) -> (r: Option<Vec<(String, String)>>)
    ensures
        r matches Some(v) ==> json_members_of(text@, key@) == Some(pairs_view(v@)),
        r is None ==> json_members_of(text@, key@) is None,
{
    let root: serde_json::Value = serde_json::from_str(text).ok()?;
    let members = root.get(key)?.as_object()?;
    Some(members.iter().map(|(k, v)| (k.clone(), v.to_string())).collect())
}

/// Pairs of strings, as characters.
pub open spec fn pairs_view(v: Seq<(String, String)>) -> Seq<(Seq<char>, Seq<char>)> {
    v.map_values(|p: (String, String)| (p.0@, p.1@))
}

/// The keys of the members, if any.
pub open spec fn member_keys(o: Option<Seq<(Seq<char>, Seq<char>)>>) -> Option<Seq<Seq<char>>> {
    match o {
        Some(ms) => Some(ms.map_values(|m: (Seq<char>, Seq<char>)| m.0)),
        None => None,
    }
}

/// One member of a JSON object: its key and, for each requested field of
/// its value, the keys of that field when it is an object.
pub struct JsonEntry {
    pub key: String,
    pub fields: Vec<Option<Vec<String>>>,
}

/// An optional list of strings, as characters.
pub open spec fn opt_views(o: Option<Vec<String>>) -> Option<Seq<Seq<char>>> {
    match o {
        Some(v) => Some(views(v@)),
        None => None,
    }
}

/// A member, as characters.
pub open spec fn entry_view(e: JsonEntry) -> (Seq<char>, Seq<Option<Seq<Seq<char>>>>) {
    (e.key@, e.fields@.map_values(|f: Option<Vec<String>>| opt_views(f)))
}

/// Members, as characters.
pub open spec fn entries_view(v: Seq<JsonEntry>) -> Seq<(Seq<char>, Seq<Option<Seq<Seq<char>>>>)> {
    v.map_values(|e: JsonEntry| entry_view(e))
}

/// The members of the object `section` of the JSON document `text`, each
/// with the keys of the requested `fields` of its value (`None` for a field
/// that is not an object); `None` when there is no such object.
pub open spec fn json_entries(text: Seq<char>, section: Seq<char>, fields: Seq<Seq<char>>) -> Option<
    Seq<(Seq<char>, Seq<Option<Seq<Seq<char>>>>)>,
> {
    match json_members_of(text, section) {
        Some(ms) => Some(
            ms.map_values(
                |m: (Seq<char>, Seq<char>)|
                    (m.0, fields.map_values(|f: Seq<char>| member_keys(json_members_of(m.1, f)))),
            ),
        ),
        None => None,
    }
}

/// The keys of the object `field` of the JSON value written in `text`.
fn field_keys(text: &str, field: &str) -> (r: Option<Vec<String>>)
    ensures
        opt_views(r) == member_keys(json_members_of(text@, field@)),
{
    let ms = match json_members(text, field) {
        Some(ms) => ms,
        None => return None,
    };
    let ghost pv = pairs_view(ms@);
    let mut keys: Vec<String> = Vec::new();
    let mut i: usize = 0;
    while i < ms.len()
        invariant
            i <= ms@.len(),
            pv == pairs_view(ms@),
            views(keys@) == pv.subrange(0, i as int).map_values(|m: (Seq<char>, Seq<char>)| m.0),
        decreases ms.len() - i,
    {
        let k = ms[i].0.clone();
        proof {
            crate::models::lemma_views_push(keys@, k);
        }
        keys.push(k);
        assert(pv[i as int].0 == k@);
        assert(pv.subrange(0, i + 1).map_values(|m: (Seq<char>, Seq<char>)| m.0) =~= pv.subrange(0, i as int).map_values(
            |m: (Seq<char>, Seq<char>)| m.0,
        ).push(k@));
        i = i + 1;
    }
    assert(pv.subrange(0, ms@.len() as int) =~= pv);
    Some(keys)
}

/// The members of the object `section` of the JSON document `text`, each
/// with the keys of the requested fields of its value.
pub(crate) fn json_object_entries(text: &str, section: &str, fields: &[&str]) -> (r: Option<Vec<JsonEntry>>)
    ensures
        r matches Some(v) ==> json_entries(text@, section@, strs(fields@)) == Some(entries_view(v@)),
        r is None ==> json_entries(text@, section@, strs(fields@)) is None,
        r matches Some(v) ==> forall|i: int| 0 <= i < v@.len() ==> (#[trigger] v@[i]).fields@.len() == fields@.len(),
{
    let ms = match json_members(text, section) {
        Some(ms) => ms,
        None => return None,
    };
    let ghost pv = pairs_view(ms@);
    let ghost fv = strs(fields@);
    let ghost want = pv.map_values(
        |m: (Seq<char>, Seq<char>)| (m.0, fv.map_values(|f: Seq<char>| member_keys(json_members_of(m.1, f)))),
    );
    let mut out: Vec<JsonEntry> = Vec::new();
    let mut i: usize = 0;
    while i < ms.len()
        invariant
            i <= ms@.len(),
            pv == pairs_view(ms@),
            fv == strs(fields@),
            want.len() == pv.len(),
            forall|k: int| 0 <= k < pv.len() ==> #[trigger] want[k] == (pv[k].0, fv.map_values(|f: Seq<char>| member_keys(json_members_of(pv[k].1, f)))),
            out@.len() == i,
            entries_view(out@) == want.subrange(0, i as int),
            forall|k: int| 0 <= k < i ==> (#[trigger] out@[k]).fields@.len() == fields@.len(),
        decreases ms.len() - i,
    {
        let value = &ms[i].1;
        let mut fs: Vec<Option<Vec<String>>> = Vec::new();
        let mut j: usize = 0;
        while j < fields.len()
            invariant
                j <= fields@.len(),
                fv == strs(fields@),
                fs@.len() == j,
                fs@.map_values(|f: Option<Vec<String>>| opt_views(f)) == fv.subrange(0, j as int).map_values(
                    |f: Seq<char>| member_keys(json_members_of(value@, f)),
                ),
            decreases fields.len() - j,
        {
            let keys = field_keys(value.as_str(), fields[j]);
            let ghost before = fs@;
            fs.push(keys);
            assert(fs@ == before.push(keys));
            assert(fv[j as int] == fields@[j as int]@);
            assert(fs@.map_values(|f: Option<Vec<String>>| opt_views(f)) =~= before.map_values(
                |f: Option<Vec<String>>| opt_views(f),
            ).push(opt_views(keys)));
            assert(fv.subrange(0, j + 1).map_values(|f: Seq<char>| member_keys(json_members_of(value@, f)))
                =~= fv.subrange(0, j as int).map_values(|f: Seq<char>| member_keys(json_members_of(value@, f))).push(
                member_keys(json_members_of(value@, fv[j as int])),
            ));
            j = j + 1;
        }
        assert(fv.subrange(0, fields@.len() as int) =~= fv);
        let e = JsonEntry { key: ms[i].0.clone(), fields: fs };
        assert(pv[i as int] == (ms@[i as int].0@, ms@[i as int].1@));
        assert(entry_view(e) == want[i as int]);
        out.push(e);
        assert(entries_view(out@) =~= want.subrange(0, i + 1));
        i = i + 1;
    }
    assert(want.subrange(0, ms@.len() as int) =~= want);
    Some(out)
}

} // verus!
