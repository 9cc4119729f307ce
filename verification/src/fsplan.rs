//! Materializing a wiki directory from the template tree, as a plan: the
//! directories to create and the symlinks to make. `extensions` and
//! `skins` are shallow — each of their children gets its own link — so
//! operators can override single entries later; every other file or
//! directory gets one link; anything else is skipped.

use vstd::prelude::*;
use crate::manage::LinkPair;
use crate::strutil::{append_str, chars_to_string};

verus! {

/// A failure of the filesystem step, as the callers report it.
#[derive(Debug)]
pub enum FsError {
    Io(String),
}

/// What kind of entry the template holds at a name.
#[derive(Clone, Copy, Debug, PartialEq, Eq, Structural)]
pub enum EntryKind {
    File,
    Dir,
    Other,
}

/// One entry of the template tree; `children` carries the names inside
/// it and matters only for the shallow directories.
#[derive(Debug)]
pub struct TemplateEntry {
    pub name: String,
    pub kind: EntryKind,
    pub children: Vec<String>,
}

/// The plan for one wiki directory: directories to create first, then
/// symlinks to make; each is idempotent at the caller, tolerating what
/// already exists.
#[derive(Debug)]
pub struct SymlinkPlan {
    pub mkdirs: Vec<String>,
    pub links: Vec<LinkPair>,
}

/// The paths of one planned link, as sequences.
#[verifier::ext_equal]
pub struct LinkModel {
    pub target: Seq<char>,
    pub link: Seq<char>,
}

/// The target and link paths of a link list.
pub open spec fn links_model(links: Seq<LinkPair>) -> Seq<LinkModel> {
    Seq::new(links.len(), |k: int| LinkModel {
        target: (links[k].target)@,
        link: (links[k].link)@,
    })
}

/// The links one template entry contributes.
pub open spec fn spec_entry_links(template: Seq<char>, dest: Seq<char>, e: &TemplateEntry) -> Seq<
    LinkModel,
> {
    if e.name@ == "extensions"@ || e.name@ == "skins"@ {
        Seq::new(e.children@.len(), |j: int| LinkModel {
            target: template + "/"@ + e.name@ + "/"@ + (e.children@[j])@,
            link: dest + "/"@ + e.name@ + "/"@ + (e.children@[j])@,
        })
    } else if e.kind == EntryKind::File || e.kind == EntryKind::Dir {
        seq![LinkModel { target: template + "/"@ + e.name@, link: dest + "/"@ + e.name@ }]
    } else {
        Seq::<LinkModel>::empty()
    }
}

/// The links of a whole entry list, in order.
pub open spec fn spec_plan_links(
    template: Seq<char>,
    dest: Seq<char>,
    entries: Seq<TemplateEntry>,
) -> Seq<LinkModel>
    decreases entries.len(),
{
    if entries.len() == 0 {
        Seq::<LinkModel>::empty()
    } else {
        spec_entry_links(template, dest, &entries[0]) + spec_plan_links(
            template,
            dest,
            entries.skip(1),
        )
    }
}

proof fn lemma_plan_links_append(
    template: Seq<char>,
    dest: Seq<char>,
    a: Seq<TemplateEntry>,
    b: Seq<TemplateEntry>,
)
    ensures
        spec_plan_links(template, dest, a + b) == spec_plan_links(template, dest, a)
            + spec_plan_links(template, dest, b),
    decreases a.len(),
{
    if a.len() == 0 {
        assert(a + b =~= b);
        assert(spec_plan_links(template, dest, a) + spec_plan_links(template, dest, b)
            =~= spec_plan_links(template, dest, b));
    } else {
        let t = a.skip(1);
        lemma_plan_links_append(template, dest, t, b);
        assert((a + b).skip(1) =~= t + b);
        assert((a + b)[0] == a[0]);
        assert(spec_plan_links(template, dest, a + b) == spec_entry_links(template, dest, &a[0])
            + (spec_plan_links(template, dest, t) + spec_plan_links(template, dest, b)));
        assert(spec_entry_links(template, dest, &a[0]) + (spec_plan_links(template, dest, t)
            + spec_plan_links(template, dest, b)) =~= (spec_entry_links(template, dest, &a[0])
            + spec_plan_links(template, dest, t)) + spec_plan_links(template, dest, b));
    }
}

fn join2(a: &str, b: &str) -> (r: String)
    ensures
        r@ == a@ + "/"@ + b@,
{
    let mut v: Vec<char> = Vec::new();
    append_str(&mut v, a);
    append_str(&mut v, "/");
    append_str(&mut v, b);
    chars_to_string(&v)
}

fn join3(a: &str, b: &str, c: &str) -> (r: String)
    ensures
        r@ == a@ + "/"@ + b@ + "/"@ + c@,
{
    let mut v: Vec<char> = Vec::new();
    append_str(&mut v, a);
    append_str(&mut v, "/");
    append_str(&mut v, b);
    append_str(&mut v, "/");
    append_str(&mut v, c);
    chars_to_string(&v)
}

/// Lays out the materialization of a wiki directory from the template:
/// create the destination and its two shallow directories, then link
/// each shallow child and each other file or directory, skipping
/// everything else.
pub fn symlink_template_plan(template: &str, dest: &str, entries: &Vec<TemplateEntry>) -> (r:
    SymlinkPlan)
    ensures
        r.mkdirs@.len() == 3,
        (r.mkdirs@[0])@ == dest@,
        (r.mkdirs@[1])@ == dest@ + "/"@ + "extensions"@,
        (r.mkdirs@[2])@ == dest@ + "/"@ + "skins"@,
        links_model(r.links@) == spec_plan_links(template@, dest@, entries@),
{
    let mut mkdirs: Vec<String> = Vec::new();
    mkdirs.push(String::from_str(dest));
    mkdirs.push(join2(dest, "extensions"));
    mkdirs.push(join2(dest, "skins"));
    let mut links: Vec<LinkPair> = Vec::new();
    let mut i: usize = 0;
    proof {
        assert(entries@.take(0) =~= Seq::<TemplateEntry>::empty());
        assert(links_model(links@) =~= spec_plan_links(template@, dest@, entries@.take(0)));
    }
    while i < entries.len()
        invariant
            i <= entries@.len(),
            links_model(links@) == spec_plan_links(template@, dest@, entries@.take(i as int)),
        decreases entries@.len() - i,
    {
        let e = &entries[i];
        let ghost base = links@;
        let shallow = crate::strutil::str_eq_str(e.name.as_str(), "extensions")
            || crate::strutil::str_eq_str(e.name.as_str(), "skins");
        if shallow {
            let blen = links.len();
            let mut j: usize = 0;
            while j < e.children.len()
                invariant
                    j <= e.children@.len(),
                    i < entries@.len(),
                    e == &entries@[i as int],
                    e.name@ == "extensions"@ || e.name@ == "skins"@,
                    blen == base.len(),
                    links@.len() == base.len() + j,
                    forall|m: int| 0 <= m < base.len() ==> links@[m] == base[m],
                    forall|m: int| base.len() <= m < links@.len()
                        ==> ((#[trigger] links@[m]).target)@ == template@ + "/"@ + e.name@ + "/"@
                            + (e.children@[m - base.len()])@,
                    forall|m: int| base.len() <= m < links@.len() ==> ((#[trigger] links@[m]).link)@
                        == dest@ + "/"@ + e.name@ + "/"@ + (e.children@[m - base.len()])@,
                decreases e.children@.len() - j,
            {
                let child = &e.children[j];
                links.push(LinkPair {
                    target: join3(template, e.name.as_str(), child.as_str()),
                    link: join3(dest, e.name.as_str(), child.as_str()),
                });
                j = j + 1;
            }
            proof {
                assert(links_model(links@) =~~= links_model(base) + spec_entry_links(
                    template@,
                    dest@,
                    &entries@[i as int],
                ));
            }
        } else {
            let kept = match e.kind {
                EntryKind::File => true,
                EntryKind::Dir => true,
                EntryKind::Other => false,
            };
            if kept {
                links.push(LinkPair {
                    target: join2(template, e.name.as_str()),
                    link: join2(dest, e.name.as_str()),
                });
                proof {
                    assert(links_model(links@) =~~= links_model(base) + spec_entry_links(
                        template@,
                        dest@,
                        &entries@[i as int],
                    ));
                }
            } else {
                proof {
                    assert(spec_entry_links(template@, dest@, &entries@[i as int]).len() == 0);
                    assert(links_model(links@) =~~= links_model(base) + spec_entry_links(
                        template@,
                        dest@,
                        &entries@[i as int],
                    ));
                }
            }
        }
        proof {
            assert(entries@.take(i + 1 as int) =~= entries@.take(i as int) + seq![
                entries@[i as int],
            ]);
            lemma_plan_links_append(template@, dest@, entries@.take(i as int), seq![
                entries@[i as int],
            ]);
            assert(seq![entries@[i as int]].skip(1) =~= Seq::<TemplateEntry>::empty());
            assert(spec_plan_links(template@, dest@, Seq::<TemplateEntry>::empty()).len() == 0);
            assert(seq![entries@[i as int]][0] == entries@[i as int]);
            assert(spec_plan_links(template@, dest@, seq![entries@[i as int]])
                =~~= spec_entry_links(template@, dest@, &entries@[i as int]));
            assert(links_model(links@) =~~= spec_plan_links(template@, dest@, entries@.take(
                i + 1 as int,
            )));
        }
        i = i + 1;
    }
    proof {
        assert(entries@.take(entries@.len() as int) =~= entries@);
    }
    SymlinkPlan { mkdirs, links }
}

} // verus!
