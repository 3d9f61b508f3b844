//! The image catalog: entries, the directive-driven three-way merge that
//! reconciles the embedded catalog with the user's on-disk one, and the
//! staleness query.
//!
//! The merge walks the two key-sorted catalogs in lock step.  A key only on
//! disk is kept unless its entry carries the `delete` directive; a key only
//! in the embedded catalog is inserted; a key in both merges field by field,
//! the on-disk entry's own change directives deciding each field.

use vstd::prelude::*;

verus! {

use crate::errors::Error;
use crate::merge::{mask_filter, opt_first};
use crate::text::{
    clone_opt_string, clone_opt_vec_pairs, clone_vec_string, cmp_str, contains_str,
    lemma_str_lt_asym, seq_has_str, str_eq, str_lt,
};
use vstd::string::StringExecFns;

/// One catalog entry as it stands in a catalog file.
#[derive(Debug)]
pub struct ImageEntry {
    pub description: Option<String>,
    pub url: String,
    pub get_url_prog: Option<String>,
    pub change: Vec<String>,
    pub properties: Vec<String>,
    pub update_after_days: Option<u64>,
    pub arch_mapping: Option<Vec<(String, String)>>,
}

/// The mathematical model of an `ImageEntry`.
pub struct ImageEntryV {
    pub description: Option<Seq<char>>,
    pub url: Seq<char>,
    pub get_url_prog: Option<Seq<char>>,
    pub change: Seq<Seq<char>>,
    pub properties: Seq<Seq<char>>,
    pub update_after_days: Option<u64>,
    pub arch_mapping: Option<Seq<(Seq<char>, Seq<char>)>>,
}

impl View for ImageEntry {
    type V = ImageEntryV;

    open spec fn view(&self) -> ImageEntryV {
        ImageEntryV {
            description: self.description.deep_view(),
            url: self.url@,
            get_url_prog: self.get_url_prog.deep_view(),
            change: self.change.deep_view(),
            properties: self.properties.deep_view(),
            update_after_days: self.update_after_days,
            arch_mapping: self.arch_mapping.deep_view(),
        }
    }
}

impl DeepView for ImageEntry {
    type V = ImageEntryV;

    open spec fn deep_view(&self) -> ImageEntryV {
        self@
    }
}

impl Clone for ImageEntry {
    fn clone(&self) -> (r: Self)
        ensures
            r@ == self@,
    {
        ImageEntry {
            description: clone_opt_string(&self.description),
            url: self.url.clone(),
            get_url_prog: clone_opt_string(&self.get_url_prog),
            change: clone_vec_string(&self.change),
            properties: clone_vec_string(&self.properties),
            update_after_days: self.update_after_days,
            arch_mapping: clone_opt_vec_pairs(&self.arch_mapping),
        }
    }
}

/// Whether a directive stands in a change set.
pub open spec fn has_directive(change: Seq<Seq<char>>, d: Seq<char>) -> bool {
    seq_has_str(change, d)
}

/// One field's merged value, decided by the on-disk entry's change set: a
/// `keep-` directive pins the on-disk value, `update-all` or an `update-`
/// directive takes the embedded value, and with no directive the on-disk
/// value stays.
pub open spec fn pick_field<T>(
    change: Seq<Seq<char>>,
    keep: Seq<char>,
    update: Seq<char>,
    disk_v: T,
    embedded_v: T,
) -> T {
    if has_directive(change, keep) || (!has_directive(change, "update-all"@) && !has_directive(
        change,
        update,
    )) {
        disk_v
    } else {
        embedded_v
    }
}

/// The merge of an embedded entry with the on-disk entry of the same name,
/// field by field, driven by the on-disk change set.
pub open spec fn entry_merged(embedded: ImageEntryV, disk: ImageEntryV) -> ImageEntryV {
    ImageEntryV {
        url: pick_field(disk.change, "keep-url"@, "update-url"@, disk.url, embedded.url),
        get_url_prog: pick_field(
            disk.change,
            "keep-get-url-prog"@,
            "update-get-url-prog"@,
            disk.get_url_prog,
            embedded.get_url_prog,
        ),
        description: pick_field(
            disk.change,
            "keep-description"@,
            "update-description"@,
            disk.description,
            embedded.description,
        ),
        change: pick_field(
            disk.change,
            "keep-change"@,
            "update-change"@,
            disk.change,
            embedded.change,
        ),
        properties: pick_field(
            disk.change,
            "keep-properties"@,
            "update-properties"@,
            disk.properties,
            embedded.properties,
        ),
        update_after_days: pick_field(
            disk.change,
            "keep-update-after-days"@,
            "update-update-after-days"@,
            disk.update_after_days,
            embedded.update_after_days,
        ),
        arch_mapping: pick_field(
            disk.change,
            "keep-arch-mapping"@,
            "update-arch-mapping"@,
            disk.arch_mapping,
            embedded.arch_mapping,
        ),
    }
}

fn merge_one_entry(embedded: &ImageEntry, disk: &ImageEntry) -> (r: ImageEntry)
    ensures
        r@ == entry_merged(embedded@, disk@),
{
    let change = &disk.change;
    let update_all = contains_str(change, "update-all");
    let url = if contains_str(change, "keep-url") || (!update_all && !contains_str(
        change,
        "update-url",
    )) {
        disk.url.clone()
    } else {
        embedded.url.clone()
    };
    let get_url_prog = if contains_str(change, "keep-get-url-prog") || (!update_all
        && !contains_str(change, "update-get-url-prog")) {
        clone_opt_string(&disk.get_url_prog)
    } else {
        clone_opt_string(&embedded.get_url_prog)
    };
    let description = if contains_str(change, "keep-description") || (!update_all && !contains_str(
        change,
        "update-description",
    )) {
        clone_opt_string(&disk.description)
    } else {
        clone_opt_string(&embedded.description)
    };
    let new_change = if contains_str(change, "keep-change") || (!update_all && !contains_str(
        change,
        "update-change",
    )) {
        clone_vec_string(&disk.change)
    } else {
        clone_vec_string(&embedded.change)
    };
    let properties = if contains_str(change, "keep-properties") || (!update_all && !contains_str(
        change,
        "update-properties",
    )) {
        clone_vec_string(&disk.properties)
    } else {
        clone_vec_string(&embedded.properties)
    };
    let update_after_days = if contains_str(change, "keep-update-after-days") || (!update_all
        && !contains_str(change, "update-update-after-days")) {
        disk.update_after_days
    } else {
        embedded.update_after_days
    };
    let arch_mapping = if contains_str(change, "keep-arch-mapping") || (!update_all
        && !contains_str(change, "update-arch-mapping")) {
        clone_opt_vec_pairs(&disk.arch_mapping)
    } else {
        clone_opt_vec_pairs(&embedded.arch_mapping)
    };
    ImageEntry {
        description,
        url,
        get_url_prog,
        change: new_change,
        properties,
        update_after_days,
        arch_mapping,
    }
}

/// Whether an entry's change set asks for its deletion.
pub open spec fn marked_deleted(e: ImageEntryV) -> bool {
    has_directive(e.change, "delete"@)
}

/// The reconciled catalog, over the two catalogs as key-ordered sequences of
/// named entries: embedded-only keys are inserted, disk-only keys are kept
/// unless marked deleted, and shared keys merge entry by entry.
pub open spec fn merge_images(
    embedded: Seq<(Seq<char>, ImageEntryV)>,
    disk: Seq<(Seq<char>, ImageEntryV)>,
) -> Seq<(Seq<char>, ImageEntryV)>
    decreases embedded.len() + disk.len(),
{
    if embedded.len() == 0 && disk.len() == 0 {
        Seq::empty()
    } else if embedded.len() == 0 {
        if marked_deleted(disk[0].1) {
            merge_images(embedded, disk.drop_first())
        } else {
            seq![disk[0]] + merge_images(embedded, disk.drop_first())
        }
    } else if disk.len() == 0 {
        seq![embedded[0]] + merge_images(embedded.drop_first(), disk)
    } else if str_lt(embedded[0].0, disk[0].0) {
        seq![embedded[0]] + merge_images(embedded.drop_first(), disk)
    } else if str_lt(disk[0].0, embedded[0].0) {
        if marked_deleted(disk[0].1) {
            merge_images(embedded, disk.drop_first())
        } else {
            seq![disk[0]] + merge_images(embedded, disk.drop_first())
        }
    } else {
        seq![(disk[0].0, entry_merged(embedded[0].1, disk[0].1))] + merge_images(
            embedded.drop_first(),
            disk.drop_first(),
        )
    }
}

/// Reconciles the embedded catalog with the on-disk one.  Both inputs walk
/// in key order; the result is their directive-driven merge.
pub fn update_images(
    embedded: &Vec<(String, ImageEntry)>,
    disk: &Vec<(String, ImageEntry)>,
) -> (r: Vec<(String, ImageEntry)>)
    ensures
        r.deep_view() == merge_images(embedded.deep_view(), disk.deep_view()),
{
    let ghost emb_v = embedded.deep_view();
    let ghost dsk_v = disk.deep_view();
    let mut out: Vec<(String, ImageEntry)> = Vec::new();
    let mut i: usize = 0;
    let mut j: usize = 0;
    proof {
        assert(emb_v.skip(0) =~= emb_v);
        assert(dsk_v.skip(0) =~= dsk_v);
        assert(out.deep_view() + merge_images(emb_v, dsk_v) =~= merge_images(emb_v, dsk_v));
    }
    while i < embedded.len() || j < disk.len()
        invariant
            0 <= i <= embedded.len(),
            0 <= j <= disk.len(),
            emb_v == embedded.deep_view(),
            dsk_v == disk.deep_view(),
            merge_images(emb_v, dsk_v) =~= out.deep_view() + merge_images(
                emb_v.skip(i as int),
                dsk_v.skip(j as int),
            ),
        decreases embedded.len() + disk.len() - i - j,
    {
        let ghost out0 = out;
        let ghost et = emb_v.skip(i as int);
        let ghost dt = dsk_v.skip(j as int);
        proof {
            if i < embedded.len() {
                assert(et.drop_first() =~= emb_v.skip(i + 1));
                assert(et[0] == emb_v[i as int]);
            }
            if j < disk.len() {
                assert(dt.drop_first() =~= dsk_v.skip(j + 1));
                assert(dt[0] == dsk_v[j as int]);
            }
        }
        if i >= embedded.len() {
            // only on-disk entries remain
            if !contains_str(&disk[j].1.change, "delete") {
                out.push((disk[j].0.clone(), disk[j].1.clone()));
            }
            j += 1;
        } else if j >= disk.len() {
            out.push((embedded[i].0.clone(), embedded[i].1.clone()));
            i += 1;
        } else {
            match cmp_str(embedded[i].0.as_str(), disk[j].0.as_str()) {
                core::cmp::Ordering::Less => {
                    out.push((embedded[i].0.clone(), embedded[i].1.clone()));
                    i += 1;
                },
                core::cmp::Ordering::Greater => {
                    if !contains_str(&disk[j].1.change, "delete") {
                        out.push((disk[j].0.clone(), disk[j].1.clone()));
                    }
                    j += 1;
                },
                core::cmp::Ordering::Equal => {
                    let merged = merge_one_entry(&embedded[i].1, &disk[j].1);
                    out.push((disk[j].0.clone(), merged));
                    i += 1;
                    j += 1;
                },
            }
        }
        proof {
            assert(merge_images(emb_v, dsk_v) =~= out.deep_view() + merge_images(
                emb_v.skip(i as int),
                dsk_v.skip(j as int),
            ));
        }
    }
    proof {
        assert(emb_v.skip(embedded.len() as int) =~= Seq::<(Seq<char>, ImageEntryV)>::empty());
        assert(dsk_v.skip(disk.len() as int) =~= Seq::<(Seq<char>, ImageEntryV)>::empty());
        assert(out.deep_view() =~= merge_images(emb_v, dsk_v));
    }
    out
}

/// Whether some entry of the catalog carries the key `k`.
pub open spec fn has_key(s: Seq<(Seq<char>, ImageEntryV)>, k: Seq<char>) -> bool {
    exists|i: int| 0 <= i < s.len() && s[i].0 == k
}

/// Whether the catalog holds an entry for `k` that is marked deleted.
pub open spec fn key_deleted(s: Seq<(Seq<char>, ImageEntryV)>, k: Seq<char>) -> bool {
    exists|i: int| 0 <= i < s.len() && s[i].0 == k && marked_deleted(s[i].1)
}

/// Whether the catalog's keys are strictly ascending (so also unique).
pub open spec fn keys_sorted(s: Seq<(Seq<char>, ImageEntryV)>) -> bool {
    forall|i: int, j: int| 0 <= i < j < s.len() ==> str_lt(#[trigger] s[i].0, #[trigger] s[j].0)
}

proof fn lemma_has_key_concat(
    a: Seq<(Seq<char>, ImageEntryV)>,
    b: Seq<(Seq<char>, ImageEntryV)>,
    k: Seq<char>,
)
    ensures
        has_key(a + b, k) == (has_key(a, k) || has_key(b, k)),
{
    if has_key(a + b, k) {
        let i = choose|i: int| 0 <= i < (a + b).len() && (a + b)[i].0 == k;
        if i < a.len() {
            assert(a[i].0 == k);
        } else {
            assert(b[i - a.len()].0 == k);
        }
    }
    if has_key(a, k) {
        let i = choose|i: int| 0 <= i < a.len() && a[i].0 == k;
        assert((a + b)[i].0 == k);
    }
    if has_key(b, k) {
        let i = choose|i: int| 0 <= i < b.len() && b[i].0 == k;
        assert((a + b)[a.len() + i].0 == k);
    }
}

proof fn lemma_key_head_tail(s: Seq<(Seq<char>, ImageEntryV)>, k: Seq<char>)
    requires
        s.len() > 0,
    ensures
        has_key(s, k) == (s[0].0 == k || has_key(s.drop_first(), k)),
        key_deleted(s, k) == ((s[0].0 == k && marked_deleted(s[0].1)) || key_deleted(
            s.drop_first(),
            k,
        )),
{
    let t = s.drop_first();
    if has_key(s, k) {
        let i = choose|i: int| 0 <= i < s.len() && s[i].0 == k;
        if i > 0 {
            assert(t[i - 1].0 == k);
        }
    }
    if has_key(t, k) {
        let i = choose|i: int| 0 <= i < t.len() && t[i].0 == k;
        assert(s[i + 1].0 == k);
    }
    if key_deleted(s, k) {
        let i = choose|i: int| 0 <= i < s.len() && s[i].0 == k && marked_deleted(s[i].1);
        if i > 0 {
            assert(t[i - 1].0 == k && marked_deleted(t[i - 1].1));
        }
    }
    if key_deleted(t, k) {
        let i = choose|i: int| 0 <= i < t.len() && t[i].0 == k && marked_deleted(t[i].1);
        assert(s[i + 1].0 == k && marked_deleted(s[i + 1].1));
    }
}

proof fn lemma_keys_sorted_tail(s: Seq<(Seq<char>, ImageEntryV)>)
    requires
        keys_sorted(s),
        s.len() > 0,
    ensures
        keys_sorted(s.drop_first()),
        forall|k: Seq<char>| #[trigger] has_key(s.drop_first(), k) ==> str_lt(s[0].0, k),
{
    let t = s.drop_first();
    assert forall|i: int, j: int| 0 <= i < j < t.len() implies str_lt(
        #[trigger] t[i].0,
        #[trigger] t[j].0,
    ) by {
        assert(t[i] == s[i + 1]);
        assert(t[j] == s[j + 1]);
    }
    assert forall|k: Seq<char>| #[trigger] has_key(t, k) implies str_lt(s[0].0, k) by {
        let i = choose|i: int| 0 <= i < t.len() && t[i].0 == k;
        assert(t[i] == s[i + 1]);
    }
}

/// Key coverage of the reconciled catalog: every key of the embedded
/// catalog appears in the output; a key of the on-disk catalog appears in
/// the output unless it is on-disk-only and its entry is marked deleted, in
/// which case it does not; and the output holds no other keys.
pub proof fn lemma_merge_key_coverage(
    emb: Seq<(Seq<char>, ImageEntryV)>,
    dsk: Seq<(Seq<char>, ImageEntryV)>,
)
    requires
        keys_sorted(emb),
        keys_sorted(dsk),
    ensures
        forall|k: Seq<char>| #[trigger] has_key(emb, k) ==> has_key(merge_images(emb, dsk), k),
        forall|k: Seq<char>|
            #[trigger] has_key(dsk, k) && !(!has_key(emb, k) && key_deleted(dsk, k)) ==> has_key(
                merge_images(emb, dsk),
                k,
            ),
        forall|k: Seq<char>|
            #[trigger] has_key(merge_images(emb, dsk), k) ==> has_key(emb, k) || has_key(dsk, k),
        forall|k: Seq<char>|
            #[trigger] has_key(dsk, k) && !has_key(emb, k) && key_deleted(dsk, k) ==> !has_key(
                merge_images(emb, dsk),
                k,
            ),
    decreases emb.len() + dsk.len(),
{
    let out = merge_images(emb, dsk);
    if emb.len() == 0 && dsk.len() == 0 {
        assert(forall|k: Seq<char>| !has_key(out, k));
    } else if emb.len() == 0 {
        let d0 = dsk[0];
        let dt = dsk.drop_first();
        lemma_keys_sorted_tail(dsk);
        lemma_merge_key_coverage(emb, dt);
        let rest = merge_images(emb, dt);
        assert forall|k: Seq<char>| true implies {
            &&& (has_key(dsk, k) && !(!has_key(emb, k) && key_deleted(dsk, k)) ==> has_key(out, k))
            &&& (has_key(out, k) ==> has_key(emb, k) || has_key(dsk, k))
            &&& (has_key(dsk, k) && !has_key(emb, k) && key_deleted(dsk, k) ==> !has_key(out, k))
        } by {
            lemma_key_head_tail(dsk, k);
            if marked_deleted(d0.1) {
                // head dropped
                if has_key(dt, k) {
                    lemma_str_lt_asym(d0.0, k);
                }
            } else {
                assert(out =~= seq![d0] + rest);
                lemma_has_key_concat(seq![d0], rest, k);
                if d0.0 == k {
                    assert(seq![d0][0].0 == k);
                    assert(has_key(seq![d0], k));
                    if key_deleted(dsk, k) {
                        let i = choose|i: int|
                            0 <= i < dsk.len() && dsk[i].0 == k && marked_deleted(dsk[i].1);
                        if i > 0 {
                            assert(str_lt(dsk[0].0, dsk[i].0));
                            lemma_str_lt_asym(dsk[0].0, dsk[i].0);
                        }
                    }
                }
                if has_key(seq![d0], k) {
                    assert(d0.0 == k);
                }
                if has_key(dt, k) {
                    lemma_str_lt_asym(d0.0, k);
                }
            }
        }
    } else if dsk.len() == 0 || str_lt(emb[0].0, dsk[0].0) {
        let e0 = emb[0];
        let et = emb.drop_first();
        lemma_keys_sorted_tail(emb);
        lemma_merge_key_coverage(et, dsk);
        let rest = merge_images(et, dsk);
        assert(out =~= seq![e0] + rest);
        assert forall|k: Seq<char>| true implies {
            &&& (has_key(emb, k) ==> has_key(out, k))
            &&& (has_key(dsk, k) && !(!has_key(emb, k) && key_deleted(dsk, k)) ==> has_key(out, k))
            &&& (has_key(out, k) ==> has_key(emb, k) || has_key(dsk, k))
            &&& (has_key(dsk, k) && !has_key(emb, k) && key_deleted(dsk, k) ==> !has_key(out, k))
        } by {
            lemma_key_head_tail(emb, k);
            lemma_has_key_concat(seq![e0], rest, k);
            if has_key(seq![e0], k) {
                assert(e0.0 == k);
                assert(emb[0].0 == k);
            }
            if e0.0 == k {
                assert(seq![e0][0].0 == k);
                assert(has_key(seq![e0], k));
            }
            if dsk.len() > 0 && has_key(dsk, k) && e0.0 == k {
                // the head key of the embedded catalog is below every
                // on-disk key here, so it cannot be an on-disk key
                let i = choose|i: int| 0 <= i < dsk.len() && dsk[i].0 == k;
                if i == 0 {
                    lemma_str_lt_asym(e0.0, dsk[0].0);
                } else {
                    assert(str_lt(dsk[0].0, dsk[i].0));
                    crate::text::lemma_str_lt_trans(e0.0, dsk[0].0, dsk[i].0);
                    lemma_str_lt_asym(e0.0, dsk[i].0);
                }
            }
        }
    } else if str_lt(dsk[0].0, emb[0].0) {
        let d0 = dsk[0];
        let dt = dsk.drop_first();
        lemma_keys_sorted_tail(dsk);
        lemma_merge_key_coverage(emb, dt);
        let rest = merge_images(emb, dt);
        assert forall|k: Seq<char>| true implies {
            &&& (has_key(emb, k) ==> has_key(out, k))
            &&& (has_key(dsk, k) && !(!has_key(emb, k) && key_deleted(dsk, k)) ==> has_key(out, k))
            &&& (has_key(out, k) ==> has_key(emb, k) || has_key(dsk, k))
            &&& (has_key(dsk, k) && !has_key(emb, k) && key_deleted(dsk, k) ==> !has_key(out, k))
        } by {
            lemma_key_head_tail(dsk, k);
            if d0.0 == k && has_key(emb, k) {
                // the head key of the on-disk catalog is below every
                // embedded key here, so it cannot be an embedded key
                let i = choose|i: int| 0 <= i < emb.len() && emb[i].0 == k;
                if i == 0 {
                    lemma_str_lt_asym(d0.0, emb[0].0);
                } else {
                    assert(str_lt(emb[0].0, emb[i].0));
                    crate::text::lemma_str_lt_trans(d0.0, emb[0].0, emb[i].0);
                    lemma_str_lt_asym(d0.0, emb[i].0);
                }
            }
            if marked_deleted(d0.1) {
                if has_key(dt, k) {
                    lemma_str_lt_asym(d0.0, k);
                }
                if key_deleted(dt, k) {
                    lemma_str_lt_asym(d0.0, k);
                }
            } else {
                assert(out =~= seq![d0] + rest);
                lemma_has_key_concat(seq![d0], rest, k);
                if d0.0 == k {
                    assert(seq![d0][0].0 == k);
                    assert(has_key(seq![d0], k));
                    if key_deleted(dsk, k) {
                        let i = choose|i: int|
                            0 <= i < dsk.len() && dsk[i].0 == k && marked_deleted(dsk[i].1);
                        if i > 0 {
                            assert(str_lt(dsk[0].0, dsk[i].0));
                            lemma_str_lt_asym(dsk[0].0, dsk[i].0);
                        }
                    }
                }
                if has_key(seq![d0], k) {
                    assert(d0.0 == k);
                }
                if has_key(dt, k) {
                    lemma_str_lt_asym(d0.0, k);
                }
            }
        }
    } else {
        let e0 = emb[0];
        let d0 = dsk[0];
        let et = emb.drop_first();
        let dt = dsk.drop_first();
        lemma_keys_sorted_tail(emb);
        lemma_keys_sorted_tail(dsk);
        lemma_str_lt_asym(e0.0, d0.0);
        lemma_str_lt_asym(d0.0, e0.0);
        assert(e0.0 == d0.0) by {
            crate::text::lemma_str_cmp_total(e0.0, d0.0);
        }
        lemma_merge_key_coverage(et, dt);
        let merged = (d0.0, entry_merged(e0.1, d0.1));
        let rest = merge_images(et, dt);
        assert(out =~= seq![merged] + rest);
        assert forall|k: Seq<char>| true implies {
            &&& (has_key(emb, k) ==> has_key(out, k))
            &&& (has_key(dsk, k) && !(!has_key(emb, k) && key_deleted(dsk, k)) ==> has_key(out, k))
            &&& (has_key(out, k) ==> has_key(emb, k) || has_key(dsk, k))
            &&& (has_key(dsk, k) && !has_key(emb, k) && key_deleted(dsk, k) ==> !has_key(out, k))
        } by {
            lemma_key_head_tail(emb, k);
            lemma_key_head_tail(dsk, k);
            lemma_has_key_concat(seq![merged], rest, k);
            if d0.0 == k {
                assert(seq![merged][0].0 == k);
                assert(has_key(seq![merged], k));
            }
            if has_key(seq![merged], k) {
                assert(d0.0 == k);
            }
            if has_key(et, k) {
                lemma_str_lt_asym(e0.0, k);
            }
            if has_key(dt, k) {
                lemma_str_lt_asym(d0.0, k);
            }
        }
    }
}

/// With no change directives the on-disk entry survives reconciliation
/// exactly as it is: user edits are never silently discarded.
pub proof fn lemma_entry_merged_conservative(embedded: ImageEntryV, disk: ImageEntryV)
    requires
        disk.change.len() == 0,
    ensures
        entry_merged(embedded, disk) == disk,
{
}

/// With `update-url` as the only directive, only the `url` field takes the
/// embedded value; every other field keeps the on-disk value.
pub proof fn lemma_entry_merged_update_url(embedded: ImageEntryV, disk: ImageEntryV)
    requires
        disk.change =~= seq!["update-url"@],
    ensures
        entry_merged(embedded, disk) == (ImageEntryV { url: embedded.url, ..disk }),
{
    proof_strlit_directives();
    assert(disk.change[0] == "update-url"@);
    assert(has_directive(disk.change, "update-url"@));
    assert forall|d: Seq<char>| #[trigger] has_directive(disk.change, d) implies d
        == "update-url"@ by {
        let i = choose|i: int| 0 <= i < disk.change.len() && disk.change[i] == d;
        assert(i == 0);
    }
}

/// Reveals the directive literals so that their texts can be told apart.
proof fn proof_strlit_directives()
    ensures
        "update-url"@ != "keep-url"@,
        "update-url"@ != "update-all"@,
        "update-url"@ != "keep-get-url-prog"@,
        "update-url"@ != "update-get-url-prog"@,
        "update-url"@ != "keep-description"@,
        "update-url"@ != "update-description"@,
        "update-url"@ != "keep-change"@,
        "update-url"@ != "update-change"@,
        "update-url"@ != "keep-properties"@,
        "update-url"@ != "update-properties"@,
        "update-url"@ != "keep-update-after-days"@,
        "update-url"@ != "update-update-after-days"@,
        "update-url"@ != "keep-arch-mapping"@,
        "update-url"@ != "update-arch-mapping"@,
{
    broadcast use vstd::string::group_string_axioms;

    reveal_strlit("update-url");
    assert("update-url"@.len() == 10);
    assert("update-url"@[7] == 'u');
    reveal_strlit("keep-url");
    reveal_strlit("update-all");
    reveal_strlit("keep-get-url-prog");
    reveal_strlit("update-get-url-prog");
    reveal_strlit("keep-description");
    reveal_strlit("update-description");
    reveal_strlit("keep-change");
    reveal_strlit("update-change");
    reveal_strlit("keep-properties");
    reveal_strlit("update-properties");
    reveal_strlit("keep-update-after-days");
    reveal_strlit("update-update-after-days");
    reveal_strlit("keep-arch-mapping");
    reveal_strlit("update-arch-mapping");
    assert("keep-url"@.len() == 8);
    assert("update-all"@.len() == 10);
    assert("update-all"@[7] == 'a');
    assert("keep-get-url-prog"@.len() == 17);
    assert("update-get-url-prog"@.len() == 19);
    assert("keep-description"@.len() == 16);
    assert("update-description"@.len() == 18);
    assert("keep-change"@.len() == 11);
    assert("update-change"@.len() == 13);
    assert("keep-properties"@.len() == 15);
    assert("update-properties"@.len() == 17);
    assert("update-properties"@[0] == 'u');
    assert("keep-get-url-prog"@[0] == 'k');
    assert("keep-update-after-days"@.len() == 22);
    assert("update-update-after-days"@.len() == 24);
    assert("keep-arch-mapping"@.len() == 17);
    assert("keep-arch-mapping"@[0] == 'k');
    assert("update-arch-mapping"@.len() == 19);
    assert("update-arch-mapping"@[7] == 'a');
    assert("update-get-url-prog"@[7] == 'g');
}

/// The first value mapped under `k`, if any.
pub open spec fn lookup_pair(m: Seq<(Seq<char>, Seq<char>)>, k: Seq<char>) -> Option<Seq<char>>
    decreases m.len(),
{
    if m.len() == 0 {
        None
    } else if m[0].0 == k {
        Some(m[0].1)
    } else {
        lookup_pair(m.drop_first(), k)
    }
}

/// The architecture name an entry's remapping table gives for the host
/// architecture, or the host architecture itself.
pub open spec fn mapped_arch_of(
    mapping: Option<Seq<(Seq<char>, Seq<char>)>>,
    arch: Seq<char>,
) -> Seq<char> {
    match mapping {
        Some(m) => match lookup_pair(m, arch) {
            Some(a) => a,
            None => arch,
        },
        None => arch,
    }
}

/// Applies an entry's architecture remapping table to the host architecture.
#[verifier::loop_isolation(false)]
pub fn mapped_arch(mapping: &Option<Vec<(String, String)>>, arch: &str) -> (r: String)
    ensures
        r@ == mapped_arch_of(mapping.deep_view(), arch@),
{
    match mapping {
        None => arch.to_owned(),
        Some(m) => {
            let mut i: usize = 0;
            proof {
                assert(m.deep_view().skip(0) =~= m.deep_view());
            }
            while i < m.len()
                invariant
                    0 <= i <= m.len(),
                    lookup_pair(m.deep_view(), arch@) == lookup_pair(
                        m.deep_view().skip(i as int),
                        arch@,
                    ),
                decreases m.len() - i,
            {
                proof {
                    assert(m.deep_view().skip(i as int).len() == m.deep_view().len() - i);
                    assert(m.deep_view().skip(i as int).drop_first() =~= m.deep_view().skip(
                        i + 1,
                    ));
                    assert(m.deep_view().skip(i as int)[0] == m.deep_view()[i as int]);
                }
                if str_eq(m[i].0.as_str(), arch) {
                    proof {
                        let dv = m.deep_view();
                        assert(dv.skip(i as int).len() > 0);
                        assert(dv.skip(i as int)[0].0 == arch@);
                        assert(lookup_pair(dv.skip(i as int), arch@) == Some(
                            dv.skip(i as int)[0].1,
                        ));
                    }
                    return m[i].1.clone();
                }
                i += 1;
            }
            proof {
                assert(m.deep_view().skip(m.len() as int)
                    =~= Seq::<(Seq<char>, Seq<char>)>::empty());
            }
            arch.to_owned()
        },
    }
}

/// One image the catalog can resolve: its entry's fields together with the
/// catalog settings the staleness query needs.
#[derive(Debug)]
pub struct Image {
    pub description: Option<String>,
    pub name: String,
    pub properties: Vec<String>,
    url: String,
    get_url_prog: Option<String>,
    update_after_days: Option<u64>,
    directory: String,
    default_update_after_days: Option<u64>,
}

/// The mathematical model of an `Image`.
pub struct ImageV {
    pub description: Option<Seq<char>>,
    pub name: Seq<char>,
    pub properties: Seq<Seq<char>>,
    pub url: Seq<char>,
    pub get_url_prog: Option<Seq<char>>,
    pub update_after_days: Option<u64>,
    pub directory: Seq<char>,
    pub default_update_after_days: Option<u64>,
}

impl View for Image {
    type V = ImageV;

    closed spec fn view(&self) -> ImageV {
        ImageV {
            description: self.description.deep_view(),
            name: self.name@,
            properties: self.properties.deep_view(),
            url: self.url@,
            get_url_prog: self.get_url_prog.deep_view(),
            update_after_days: self.update_after_days,
            directory: self.directory@,
            default_update_after_days: self.default_update_after_days,
        }
    }
}

impl DeepView for Image {
    type V = ImageV;

    open spec fn deep_view(&self) -> ImageV {
        self@
    }
}

impl Clone for Image {
    fn clone(&self) -> (r: Self)
        ensures
            r@ == self@,
    {
        Image {
            description: clone_opt_string(&self.description),
            name: self.name.clone(),
            properties: clone_vec_string(&self.properties),
            url: self.url.clone(),
            get_url_prog: clone_opt_string(&self.get_url_prog),
            update_after_days: self.update_after_days,
            directory: self.directory.clone(),
            default_update_after_days: self.default_update_after_days,
        }
    }
}

/// Whether an image file of the given age is outdated: only when an update
/// interval applies (the entry's own, else the catalog's) and the age
/// exceeds it.  An unknown age or a missing interval never forces an update.
pub open spec fn image_outdated(
    entry_days: Option<u64>,
    default_days: Option<u64>,
    age_secs: Option<u64>,
) -> bool {
    match age_secs {
        None => false,
        Some(a) => match opt_first(entry_days, default_days) {
            None => false,
            Some(d) => a > d * 86400,
        },
    }
}

impl Image {
    /// Builds an image from its catalog entry, its name, its download URL
    /// (the entry's URL with the architecture filled in) and the catalog
    /// settings.
    pub fn from_deserialize(
        image: &ImageEntry,
        name: &str,
        url: String,
        config: &crate::config::Images,
    ) -> (r: Image)
        ensures
            r@ == (ImageV {
                description: image@.description,
                name: name@,
                properties: image@.properties,
                url: url@,
                get_url_prog: image@.get_url_prog,
                update_after_days: image@.update_after_days,
                directory: config.directory@,
                default_update_after_days: config.update_after_days,
            }),
    {
        Image {
            description: clone_opt_string(&image.description),
            name: name.to_owned(),
            properties: clone_vec_string(&image.properties),
            url,
            get_url_prog: clone_opt_string(&image.get_url_prog),
            update_after_days: image.update_after_days,
            directory: config.directory.clone(),
            default_update_after_days: config.update_after_days,
        }
    }

    /// Where the image's file lives: the catalog directory joined with the
    /// image name.
    pub fn path(&self) -> (r: String)
        ensures
            r@ == self@.directory + "/"@ + self@.name,
    {
        let mut r = self.directory.clone();
        r.append("/");
        r.append(self.name.as_str());
        r
    }

    /// Whether the image's file, whose age in seconds the caller read from
    /// the filesystem, is outdated.
    pub fn outdate(&self, age_secs: Option<u64>) -> (r: bool)
        ensures
            r == image_outdated(self@.update_after_days, self@.default_update_after_days, age_secs),
    {
        let days = match self.update_after_days {
            Some(d) => Some(d),
            None => self.default_update_after_days,
        };
        match (age_secs, days) {
            (Some(a), Some(d)) => (a as u128) > (d as u128) * 86400,
            _ => false,
        }
    }

    /// Whether the image's file stands among the given present paths.
    pub fn file_exists(&self, present: &Vec<String>) -> (r: bool)
        ensures
            r == seq_has_str(present.deep_view(), self@.directory + "/"@ + self@.name),
    {
        let p = self.path();
        contains_str(present, p.as_str())
    }

    /// The download URL.
    pub fn url(&self) -> (r: &str)
        ensures
            r@ == self@.url,
    {
        self.url.as_str()
    }

    /// The program that resolves the URL at pull time, if the entry names
    /// one.
    pub fn get_url_prog(&self) -> (r: Option<String>)
        ensures
            r.deep_view() == self@.get_url_prog,
    {
        clone_opt_string(&self.get_url_prog)
    }
}

/// The first image of the given name.
pub open spec fn find_by_name(s: Seq<ImageV>, n: Seq<char>) -> Option<ImageV>
    decreases s.len(),
{
    if s.len() == 0 {
        None
    } else if s[0].name == n {
        Some(s[0])
    } else {
        find_by_name(s.drop_first(), n)
    }
}

/// Whether the images' names are strictly ascending (so also unique): the
/// key order the catalog file carries.
pub open spec fn images_sorted(s: Seq<ImageV>) -> bool {
    crate::merge::sorted_by(s, |im: ImageV| im.name)
}

/// The images the catalog offers, in ascending name order.
#[derive(Debug)]
pub struct Images(Vec<Image>);

impl View for Images {
    type V = Seq<ImageV>;

    closed spec fn view(&self) -> Seq<ImageV> {
        self.0.deep_view()
    }
}

impl Images {
    /// An empty collection.
    pub fn new() -> (r: Images)
        ensures
            r@ == Seq::<ImageV>::empty(),
    {
        let v: Vec<Image> = Vec::new();
        proof {
            assert(v.deep_view() =~= Seq::<ImageV>::empty());
        }
        Images(v)
    }

    /// Wraps a name-ordered list of images.
    pub fn from_vec(images: Vec<Image>) -> (r: Images)
        requires
            images_sorted(images.deep_view()),
        ensures
            r@ == images.deep_view(),
            images_sorted(r@),
    {
        Images(images)
    }

    /// Hands the images back out.
    pub fn into_vec(self) -> (r: Vec<Image>)
        ensures
            r.deep_view() == self@,
    {
        self.0
    }

    /// How many images the collection holds.
    pub fn len(&self) -> (r: usize)
        ensures
            r == self@.len(),
    {
        self.0.len()
    }

    /// The images whose files stand among the given present paths.
    pub fn keep_existing(self, present: &Vec<String>) -> (r: Images)
        ensures
            images_sorted(self@) ==> images_sorted(r@),
            r@ == mask_filter(
                self@,
                Seq::new(
                    self@.len(),
                    |i: int| seq_has_str(present.deep_view(), self@[i].directory + "/"@ + self@[i].name),
                ),
            ),
    {
        let ghost mask = Seq::new(
            self@.len(),
            |i: int| seq_has_str(present.deep_view(), self@[i].directory + "/"@ + self@[i].name),
        );
        let mut out: Vec<Image> = Vec::new();
        let mut i: usize = 0;
        proof {
            assert(out.deep_view() =~= mask_filter(self@.take(0), mask.take(0)));
        }
        while i < self.0.len()
            invariant
                0 <= i <= self.0.len(),
                self@ == self.0.deep_view(),
                mask == Seq::new(
                    self@.len(),
                    |i: int| seq_has_str(
                        present.deep_view(),
                        self@[i].directory + "/"@ + self@[i].name,
                    ),
                ),
                out.deep_view() == mask_filter(self@.take(i as int), mask.take(i as int)),
            decreases self.0.len() - i,
        {
            let ghost out0 = out;
            let keep = self.0[i].file_exists(present);
            if keep {
                out.push(self.0[i].clone());
            }
            proof {
                crate::merge::lemma_mask_filter_push(
                    self@.take(i as int),
                    mask.take(i as int),
                    self@[i as int],
                    mask[i as int],
                );
                assert(self@.take(i as int).push(self@[i as int]) =~= self@.take(i + 1));
                assert(mask.take(i as int).push(mask[i as int]) =~= mask.take(i + 1));
                if keep {
                    assert(out.deep_view() =~= out0.deep_view() + seq![self@[i as int]]);
                } else {
                    assert(out.deep_view() =~= out0.deep_view());
                    assert(out0.deep_view() + Seq::<ImageV>::empty() =~= out0.deep_view());
                }
            }
            i += 1;
        }
        proof {
            assert(self@.take(self@.len() as int) =~= self@);
            assert(mask.take(self@.len() as int) =~= mask);
            if images_sorted(self@) {
                crate::merge::lemma_mask_filter_sorted(self@, mask, |im: ImageV| im.name);
            }
        }
        Images(out)
    }

    /// The images that are outdated, given each file's age in seconds.
    pub fn outdate(self, ages: &Vec<Option<u64>>) -> (r: Images)
        requires
            ages.len() == self@.len(),
        ensures
            images_sorted(self@) ==> images_sorted(r@),
            r@ == mask_filter(
                self@,
                Seq::new(
                    self@.len(),
                    |i: int| image_outdated(
                        self@[i].update_after_days,
                        self@[i].default_update_after_days,
                        ages@[i],
                    ),
                ),
            ),
    {
        let ghost mask = Seq::new(
            self@.len(),
            |i: int| image_outdated(
                self@[i].update_after_days,
                self@[i].default_update_after_days,
                ages@[i],
            ),
        );
        let mut out: Vec<Image> = Vec::new();
        let mut i: usize = 0;
        proof {
            assert(out.deep_view() =~= mask_filter(self@.take(0), mask.take(0)));
        }
        while i < self.0.len()
            invariant
                0 <= i <= self.0.len(),
                self@ == self.0.deep_view(),
                ages.len() == self@.len(),
                mask == Seq::new(
                    self@.len(),
                    |i: int| image_outdated(
                        self@[i].update_after_days,
                        self@[i].default_update_after_days,
                        ages@[i],
                    ),
                ),
                out.deep_view() == mask_filter(self@.take(i as int), mask.take(i as int)),
            decreases self.0.len() - i,
        {
            let ghost out0 = out;
            let keep = self.0[i].outdate(ages[i]);
            if keep {
                out.push(self.0[i].clone());
            }
            proof {
                crate::merge::lemma_mask_filter_push(
                    self@.take(i as int),
                    mask.take(i as int),
                    self@[i as int],
                    mask[i as int],
                );
                assert(self@.take(i as int).push(self@[i as int]) =~= self@.take(i + 1));
                assert(mask.take(i as int).push(mask[i as int]) =~= mask.take(i + 1));
                if keep {
                    assert(out.deep_view() =~= out0.deep_view() + seq![self@[i as int]]);
                } else {
                    assert(out.deep_view() =~= out0.deep_view());
                    assert(out0.deep_view() + Seq::<ImageV>::empty() =~= out0.deep_view());
                }
            }
            i += 1;
        }
        proof {
            assert(self@.take(self@.len() as int) =~= self@);
            assert(mask.take(self@.len() as int) =~= mask);
            if images_sorted(self@) {
                crate::merge::lemma_mask_filter_sorted(self@, mask, |im: ImageV| im.name);
            }
        }
        Images(out)
    }

    /// The images whose mask bit is set.
    pub fn filter(self, keep: &Vec<bool>) -> (r: Images)
        requires
            keep.len() == self@.len(),
        ensures
            images_sorted(self@) ==> images_sorted(r@),
            r@ == mask_filter(self@, keep@),
    {
        proof {
            if images_sorted(self@) {
                crate::merge::lemma_mask_filter_sorted(self@, keep@, |im: ImageV| im.name);
            }
        }
        let mut out: Vec<Image> = Vec::new();
        let mut i: usize = 0;
        proof {
            assert(out.deep_view() =~= mask_filter(self@.take(0), keep@.take(0)));
        }
        while i < self.0.len()
            invariant
                0 <= i <= self.0.len(),
                self@ == self.0.deep_view(),
                keep.len() == self@.len(),
                out.deep_view() == mask_filter(self@.take(i as int), keep@.take(i as int)),
            decreases self.0.len() - i,
        {
            let ghost out0 = out;
            if keep[i] {
                out.push(self.0[i].clone());
            }
            proof {
                crate::merge::lemma_mask_filter_push(
                    self@.take(i as int),
                    keep@.take(i as int),
                    self@[i as int],
                    keep@[i as int],
                );
                assert(self@.take(i as int).push(self@[i as int]) =~= self@.take(i + 1));
                assert(keep@.take(i as int).push(keep@[i as int]) =~= keep@.take(i + 1));
                if keep@[i as int] {
                    assert(out.deep_view() =~= out0.deep_view() + seq![self@[i as int]]);
                } else {
                    assert(out.deep_view() =~= out0.deep_view());
                    assert(out0.deep_view() + Seq::<ImageV>::empty() =~= out0.deep_view());
                }
            }
            i += 1;
        }
        proof {
            assert(self@.take(self@.len() as int) =~= self@);
            assert(keep@.take(self@.len() as int) =~= keep@);
        }
        Images(out)
    }

    /// The names of the images: the catalog's keys, ascending when the
    /// collection keeps its name order.
    pub fn names(&self) -> (r: Vec<String>)
        ensures
            r.deep_view() == Seq::new(self@.len(), |i: int| self@[i].name),
            images_sorted(self@) ==> forall|i: int, j: int|
                0 <= i < j < r.deep_view().len() ==> str_lt(
                    #[trigger] r.deep_view()[i],
                    #[trigger] r.deep_view()[j],
                ),
    {
        let mut r: Vec<String> = Vec::new();
        let mut i: usize = 0;
        while i < self.0.len()
            invariant
                0 <= i <= self.0.len(),
                self@ == self.0.deep_view(),
                r.len() == i,
                forall|j: int| 0 <= j < i ==> r.deep_view()[j] == self@[j].name,
            decreases self.0.len() - i,
        {
            let ghost r0 = r;
            r.push(self.0[i].name.clone());
            proof {
                assert(r.deep_view()[i as int] == self@[i as int].name);
                assert forall|j: int| 0 <= j < i implies r.deep_view()[j] == self@[j].name by {
                    assert(r@[j] == r0@[j]);
                    assert(r0.deep_view()[j] == self@[j].name);
                }
            }
            i += 1;
        }
        proof {
            assert(r.deep_view() =~= Seq::new(self@.len(), |i: int| self@[i].name));
        }
        r
    }

    /// The first image of the given name, if any.
    pub fn get(&self, name: &str) -> (r: Option<&Image>)
        ensures
            match r {
                Some(im) => find_by_name(self@, name@) == Some(im@),
                None => find_by_name(self@, name@) is None,
            },
    {
        let mut i: usize = 0;
        proof {
            assert(self@.skip(0) =~= self@);
        }
        while i < self.0.len()
            invariant
                0 <= i <= self.0.len(),
                self@ == self.0.deep_view(),
                find_by_name(self@, name@) == find_by_name(self@.skip(i as int), name@),
            decreases self.0.len() - i,
        {
            proof {
                assert(self@.skip(i as int).len() == self@.len() - i);
                assert(self@.skip(i as int).drop_first() =~= self@.skip(i + 1));
                assert(self@.skip(i as int)[0] == self@[i as int]);
            }
            if str_eq(self.0[i].name.as_str(), name) {
                return Some(&self.0[i]);
            }
            i += 1;
        }
        proof {
            assert(self@.skip(self.0.len() as int) =~= Seq::<ImageV>::empty());
        }
        None
    }

    /// The first image of the given name, or the error naming the unknown
    /// image.
    pub fn get_result(&self, name: &str) -> (r: Result<&Image, Error>)
        ensures
            match r {
                Ok(im) => find_by_name(self@, name@) == Some(im@),
                Err(e) => {
                    &&& find_by_name(self@, name@) is None
                    &&& e matches Error::UnknownImage(n)
                    &&& n@ == name@
                },
            },
    {
        match self.get(name) {
            Some(im) => Ok(im),
            None => Err(Error::UnknownImage(name.to_owned())),
        }
    }
}

/// Builds the offered images from the parsed catalog entries, which come
/// key-ordered as the catalog file keeps them, and the URL resolved for
/// each of them.
pub fn available(
    entries: &Vec<(String, ImageEntry)>,
    urls: &Vec<String>,
    config: &crate::config::Images,
) -> (r: Images)
    requires
        urls.len() == entries.len(),
        forall|i: int, j: int|
            0 <= i < j < entries.deep_view().len() ==> str_lt(
                (#[trigger] entries.deep_view()[i]).0,
                (#[trigger] entries.deep_view()[j]).0,
            ),
    ensures
        images_sorted(r@),
        r@.len() == entries.len(),
        forall|i: int|
            0 <= i < entries.len() ==> #[trigger] r@[i] == (ImageV {
                description: entries.deep_view()[i].1.description,
                name: entries.deep_view()[i].0,
                properties: entries.deep_view()[i].1.properties,
                url: urls.deep_view()[i],
                get_url_prog: entries.deep_view()[i].1.get_url_prog,
                update_after_days: entries.deep_view()[i].1.update_after_days,
                directory: config.directory@,
                default_update_after_days: config.update_after_days,
            }),
{
    let mut images: Vec<Image> = Vec::new();
    let mut i: usize = 0;
    while i < entries.len()
        invariant
            0 <= i <= entries.len(),
            urls.len() == entries.len(),
            images.len() == i,
            forall|j: int|
                0 <= j < i ==> #[trigger] images.deep_view()[j] == (ImageV {
                    description: entries.deep_view()[j].1.description,
                    name: entries.deep_view()[j].0,
                    properties: entries.deep_view()[j].1.properties,
                    url: urls.deep_view()[j],
                    get_url_prog: entries.deep_view()[j].1.get_url_prog,
                    update_after_days: entries.deep_view()[j].1.update_after_days,
                    directory: config.directory@,
                    default_update_after_days: config.update_after_days,
                }),
        decreases entries.len() - i,
    {
        let im = Image::from_deserialize(
            &entries[i].1,
            entries[i].0.as_str(),
            urls[i].clone(),
            config,
        );
        let ghost im_v = im@;
        let ghost images0 = images;
        images.push(im);
        proof {
            assert(images.deep_view()[i as int] == im_v);
            assert forall|j: int| 0 <= j < i implies #[trigger] images.deep_view()[j]
                == images0.deep_view()[j] by {
                assert(images@[j] == images0@[j]);
            }
        }
        i += 1;
    }
    proof {
        assert forall|a: int, b: int| 0 <= a < b < images.deep_view().len() implies str_lt(
            (#[trigger] images.deep_view()[a]).name,
            (#[trigger] images.deep_view()[b]).name,
        ) by {
            assert(images.deep_view()[a].name == entries.deep_view()[a].0);
            assert(images.deep_view()[b].name == entries.deep_view()[b].0);
        }
    }
    Images(images)
}

/// The catalog with an entry set under a key: an existing entry of that key
/// is replaced, else the new entry stands at its key-ordered place.
pub open spec fn map_insert(
    s: Seq<(Seq<char>, ImageEntryV)>,
    k: Seq<char>,
    v: ImageEntryV,
) -> Seq<(Seq<char>, ImageEntryV)>
    decreases s.len(),
{
    if s.len() == 0 {
        seq![(k, v)]
    } else if str_lt(s[0].0, k) {
        seq![s[0]] + map_insert(s.drop_first(), k, v)
    } else if s[0].0 == k {
        seq![(k, v)] + s.drop_first()
    } else {
        seq![(k, v)] + s
    }
}

/// An image builder: a name, a URL, and the optional fields of a new
/// catalog entry.
#[derive(Debug)]
pub struct ImageBuilder {
    name: String,
    url: String,
    description: Option<String>,
    change: Vec<String>,
    properties: Vec<String>,
    update_after_days: Option<u64>,
}

/// The mathematical model of an `ImageBuilder`.
pub struct ImageBuilderV {
    pub name: Seq<char>,
    pub url: Seq<char>,
    pub description: Option<Seq<char>>,
    pub change: Seq<Seq<char>>,
    pub properties: Seq<Seq<char>>,
    pub update_after_days: Option<u64>,
}

impl View for ImageBuilder {
    type V = ImageBuilderV;

    closed spec fn view(&self) -> ImageBuilderV {
        ImageBuilderV {
            name: self.name@,
            url: self.url@,
            description: self.description.deep_view(),
            change: self.change.deep_view(),
            properties: self.properties.deep_view(),
            update_after_days: self.update_after_days,
        }
    }
}

impl ImageBuilder {
    /// A builder for a new entry of the given name and URL.
    pub fn new(name: &str, url: &str) -> (r: ImageBuilder)
        ensures
            r@ == (ImageBuilderV {
                name: name@,
                url: url@,
                description: None::<Seq<char>>,
                change: Seq::<Seq<char>>::empty(),
                properties: Seq::<Seq<char>>::empty(),
                update_after_days: None::<u64>,
            }),
    {
        let change: Vec<String> = Vec::new();
        let properties: Vec<String> = Vec::new();
        proof {
            assert(change.deep_view() =~= Seq::<Seq<char>>::empty());
            assert(properties.deep_view() =~= Seq::<Seq<char>>::empty());
        }
        ImageBuilder {
            name: name.to_owned(),
            url: url.to_owned(),
            description: None,
            change,
            properties,
            update_after_days: None,
        }
    }

    /// Sets the description.
    pub fn description(&mut self, description: &str)
        ensures
            final(self)@ == (ImageBuilderV { description: Some(description@), ..old(self)@ }),
    {
        self.description = Some(description.to_owned());
    }

    /// Sets the change directives.
    pub fn change(&mut self, change: &Vec<String>)
        ensures
            final(self)@ == (ImageBuilderV { change: change.deep_view(), ..old(self)@ }),
    {
        self.change = crate::text::clone_vec_string(change);
    }

    /// Sets the properties.
    pub fn properties(&mut self, properties: &Vec<String>)
        ensures
            final(self)@ == (ImageBuilderV { properties: properties.deep_view(), ..old(self)@ }),
    {
        self.properties = crate::text::clone_vec_string(properties);
    }

    /// Sets the update interval in days.
    pub fn update_after_days(&mut self, update_after_days: u64)
        ensures
            final(self)@ == (ImageBuilderV {
                update_after_days: Some(update_after_days),
                ..old(self)@
            }),
    {
        self.update_after_days = Some(update_after_days);
    }
}

impl ImageEntry {
    /// The catalog entry a builder describes.
    pub fn from_builder(builder: &ImageBuilder) -> (r: ImageEntry)
        ensures
            r@ == (ImageEntryV {
                description: builder@.description,
                url: builder@.url,
                get_url_prog: None::<Seq<char>>,
                change: builder@.change,
                properties: builder@.properties,
                update_after_days: builder@.update_after_days,
                arch_mapping: None::<Seq<(Seq<char>, Seq<char>)>>,
            }),
    {
        ImageEntry {
            description: clone_opt_string(&builder.description),
            url: builder.url.clone(),
            get_url_prog: None,
            change: clone_vec_string(&builder.change),
            properties: clone_vec_string(&builder.properties),
            update_after_days: builder.update_after_days,
            arch_mapping: None,
        }
    }
}

/// Adds the builder's entry to the parsed catalog.  A URL that is not
/// `http://` or `https://` is rejected with `BadUrl`; otherwise the entry
/// stands in the catalog under its name, replacing an entry of that name.
#[verifier::rlimit(50)]
#[verifier::loop_isolation(false)]
pub fn add(entries: &Vec<(String, ImageEntry)>, builder: &ImageBuilder) -> (r: Result<
    Vec<(String, ImageEntry)>,
    Error,
>)
    ensures
        match r {
            Ok(v) => {
                &&& crate::text::starts_with_seq(builder@.url, "https://"@)
                    || crate::text::starts_with_seq(builder@.url, "http://"@)
                &&& v.deep_view() == map_insert(
                    entries.deep_view(),
                    builder@.name,
                    ImageEntryV {
                        description: builder@.description,
                        url: builder@.url,
                        get_url_prog: None::<Seq<char>>,
                        change: builder@.change,
                        properties: builder@.properties,
                        update_after_days: builder@.update_after_days,
                        arch_mapping: None::<Seq<(Seq<char>, Seq<char>)>>,
                    },
                )
            },
            Err(e) => {
                &&& !crate::text::starts_with_seq(builder@.url, "https://"@)
                &&& !crate::text::starts_with_seq(builder@.url, "http://"@)
                &&& e matches Error::BadUrl(u)
                &&& u@ == builder@.url
            },
        },
{
    if !crate::text::str_starts_with(builder.url.as_str(), "https://") && !crate::text::str_starts_with(
        builder.url.as_str(),
        "http://",
    ) {
        return Err(Error::BadUrl(builder.url.clone()));
    }
    let image = ImageEntry::from_builder(builder);
    let ghost k = builder@.name;
    let ghost v = image@;
    let ghost edv = entries.deep_view();
    let mut out: Vec<(String, ImageEntry)> = Vec::new();
    let mut i: usize = 0;
    proof {
        assert(edv.skip(0) =~= edv);
        assert(out.deep_view() + map_insert(edv, k, v) =~= map_insert(edv, k, v));
    }
    // copy the entries whose keys are below the new key
    while i < entries.len()
        invariant
            0 <= i <= entries.len(),
            edv == entries.deep_view(),
            v == image@,
            k == builder@.name,
            map_insert(edv, k, v) =~= out.deep_view() + map_insert(edv.skip(i as int), k, v),
        decreases entries.len() - i,
    {
        proof {
            assert(edv.skip(i as int).drop_first() =~= edv.skip(i + 1));
            assert(edv.skip(i as int)[0] == edv[i as int]);
        }
        let ord = cmp_str(entries[i].0.as_str(), builder.name.as_str());
        match ord {
            core::cmp::Ordering::Less => {
                let ghost out_mid = out;
                out.push((entries[i].0.clone(), entries[i].1.clone()));
                proof {
                    assert(out.deep_view() =~= out_mid.deep_view() + seq![edv[i as int]]);
                }
                i += 1;
            },
            core::cmp::Ordering::Equal => {
                let ghost out_before = out;
                out.push((builder.name.clone(), image));
                let mut j: usize = i + 1;
                proof {
                    lemma_str_lt_asym(k, k);
                    assert(edv.skip(i as int)[0].0 == k);
                    assert(map_insert(edv.skip(i as int), k, v) =~= seq![(k, v)] + edv.skip(
                        i + 1,
                    ));
                    assert(out.deep_view() =~= out_before.deep_view() + seq![(k, v)]);
                }
                while j < entries.len()
                    invariant
                        i + 1 <= j <= entries.len(),
                        edv == entries.deep_view(),
                        map_insert(edv, k, v) =~= out.deep_view() + edv.skip(j as int),
                    decreases entries.len() - j,
                {
                    proof {
                        assert(edv.skip(j as int).drop_first() =~= edv.skip(j + 1));
                        assert(edv.skip(j as int)[0] == edv[j as int]);
                    }
                    let ghost out_mid = out;
                    out.push((entries[j].0.clone(), entries[j].1.clone()));
                    proof {
                        assert(out.deep_view() =~= out_mid.deep_view() + seq![edv[j as int]]);
                    }
                    j += 1;
                }
                proof {
                    assert(edv.skip(entries.len() as int)
                        =~= Seq::<(Seq<char>, ImageEntryV)>::empty());
                    assert(out.deep_view() =~= map_insert(edv, k, v));
                }
                return Ok(out);
            },
            core::cmp::Ordering::Greater => {
                // the new key goes right here, before the current entry
                let ghost out_before = out;
                out.push((builder.name.clone(), image));
                let mut j: usize = i;
                proof {
                    lemma_str_lt_asym(k, edv.skip(i as int)[0].0);
                    assert(map_insert(edv.skip(i as int), k, v) =~= seq![(k, v)] + edv.skip(
                        i as int,
                    ));
                    assert(out.deep_view() =~= out_before.deep_view() + seq![(k, v)]);
                }
                while j < entries.len()
                    invariant
                        i <= j <= entries.len(),
                        edv == entries.deep_view(),
                        map_insert(edv, k, v) =~= out.deep_view() + edv.skip(j as int),
                    decreases entries.len() - j,
                {
                    proof {
                        assert(edv.skip(j as int).drop_first() =~= edv.skip(j + 1));
                        assert(edv.skip(j as int)[0] == edv[j as int]);
                    }
                    let ghost out_mid = out;
                    out.push((entries[j].0.clone(), entries[j].1.clone()));
                    proof {
                        assert(out.deep_view() =~= out_mid.deep_view() + seq![edv[j as int]]);
                    }
                    j += 1;
                }
                proof {
                    assert(edv.skip(entries.len() as int)
                        =~= Seq::<(Seq<char>, ImageEntryV)>::empty());
                    assert(out.deep_view() =~= map_insert(edv, k, v));
                }
                return Ok(out);
            },
        }
    }
    // every key was below the new one: the new entry goes last
    let ghost out_before = out;
    out.push((builder.name.clone(), image));
    proof {
        assert(out.deep_view() =~= out_before.deep_view() + seq![(k, v)]);
        assert(edv.skip(entries.len() as int) =~= Seq::<(Seq<char>, ImageEntryV)>::empty());
        assert(map_insert(Seq::<(Seq<char>, ImageEntryV)>::empty(), k, v) =~= seq![(k, v)]);
        assert(map_insert(edv, k, v) =~= out_before.deep_view() + seq![(k, v)]);
        assert(out.deep_view() =~= map_insert(edv, k, v));
    }
    Ok(out)
}

/// Where an image of the given name would live under a directory, when its
/// file is present; the error names the missing image otherwise.
pub fn path(images_dir: &str, image_name: &str, present: bool) -> (r: Result<String, Error>)
    ensures
        present ==> (r matches Ok(p) && p@ == images_dir@ + "/"@ + image_name@),
        !present ==> (r matches Err(e) && e matches Error::ImageDoesNotExists(n) && n@
            == image_name@),
{
    if present {
        let mut p = images_dir.to_owned();
        p.append("/");
        p.append(image_name);
        Ok(p)
    } else {
        Err(Error::ImageDoesNotExists(image_name.to_owned()))
    }
}

/// The image's path under the first directory where its file is present,
/// walking the directories in order; the error names the missing image when
/// no directory holds it.
pub fn find(images_dirs: &Vec<String>, image_name: &str, present: &Vec<bool>) -> (r: Result<
    String,
    Error,
>)
    requires
        present.len() == images_dirs.len(),
    ensures
        match r {
            Ok(p) => exists|i: int|
                {
                    &&& 0 <= i < images_dirs.len()
                    &&& present@[i]
                    &&& p@ == images_dirs.deep_view()[i] + "/"@ + image_name@
                    &&& forall|j: int| 0 <= j < i ==> !present@[j]
                },
            Err(e) => {
                &&& forall|j: int| 0 <= j < images_dirs.len() ==> !present@[j]
                &&& e matches Error::ImageDoesNotExists(n)
                &&& n@ == image_name@
            },
        },
{
    let mut i: usize = 0;
    while i < images_dirs.len()
        invariant
            0 <= i <= images_dirs.len(),
            present.len() == images_dirs.len(),
            forall|j: int| 0 <= j < i ==> !present@[j],
        decreases images_dirs.len() - i,
    {
        if present[i] {
            let mut p = images_dirs[i].clone();
            p.append("/");
            p.append(image_name);
            proof {
                assert(present@[i as int]);
            }
            return Ok(p);
        }
        i += 1;
    }
    Err(Error::ImageDoesNotExists(image_name.to_owned()))
}

} // verus!
