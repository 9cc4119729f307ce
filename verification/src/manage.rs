//! Management decisions over existing wikis: the visibility update and
//! the forward-auth visibility check, the favicon upload checks, the
//! extension/skin sync plan, and the idempotent delete teardown.

use vstd::prelude::*;
use crate::db::{deprovision_statements, spec_deprovision_stmts};
use crate::error::ApiError;
use crate::strutil::{spec_trim, trim_ascii, spec_ascii_lower, ascii_lower, chars_eq_str,
    chars_to_string, str_eq_str, append_str};
use crate::validate::{spec_valid_slug, is_valid_slug, spec_valid_ident, is_valid_ident,
    lemma_slug_is_ident};

verus! {

/// The body of a visibility update.
#[derive(Debug)]
pub struct VisibilityBody {
    pub visibility: String,
}

/// The normalized form of a requested visibility update: trimmed and
/// ASCII lower-cased.
pub open spec fn spec_vis_norm(v: Seq<char>) -> Seq<char> {
    spec_ascii_lower(spec_trim(v))
}

/// Decides a visibility update. A missing wiki rejects with 404, a
/// caller other than the owner with 403, and a normalized value outside
/// {public, unlisted, private} with 400; otherwise the wiki id and the
/// normalized value to store are returned.
pub fn set_visibility_decision(
    lookup: Option<(u64, u64)>,
    auth_user_id: u64,
    body: &VisibilityBody,
) -> (r: Result<(u64, String), ApiError>)
    ensures
        ({
            let vis = spec_vis_norm(body.visibility@);
            match lookup {
                None => r matches Err(e) && e.status == 404 && e.code@ == "not_found"@,
                Some((wiki_id, owner_id)) => {
                    if auth_user_id != owner_id {
                        r matches Err(e) && e.status == 403 && e.code@ == "not_owner"@
                    } else if vis == "public"@ || vis == "unlisted"@ || vis == "private"@ {
                        r matches Ok(p) && p.0 == wiki_id && p.1@ == vis
                    } else {
                        r matches Err(e) && e.status == 400 && e.code@ == "invalid_param"@
                    }
                },
            }
        }),
{
    let (wiki_id, owner_id) = match lookup {
        Some(p) => p,
        None => {
            return Err(ApiError::new(404, "not_found", String::from_str("wiki is not found")));
        },
    };
    if auth_user_id != owner_id {
        return Err(ApiError::new(403, "not_owner", String::from_str("not owner")));
    }
    let t = trim_ascii(body.visibility.as_str());
    let low = ascii_lower(&t);
    if chars_eq_str(&low, "public") || chars_eq_str(&low, "unlisted") || chars_eq_str(
        &low,
        "private",
    ) {
        Ok((wiki_id, chars_to_string(&low)))
    } else {
        Err(ApiError::new(
            400,
            "invalid_param",
            String::from_str("visibility must be one of: public, unlisted, private"),
        ))
    }
}

/// The forward-auth outcome for a request against a wiki.
#[derive(Debug)]
pub enum VisibilityOutcome {
    PassPublic,
    PassUnlisted,
    PassPrivateSysop,
    ForbiddenPrivate,
    UnknownVisibility,
    NotReady,
    NotFound,
}

/// Whether one of the caller's groups is `sysop`.
pub open spec fn spec_has_sysop(groups: Seq<String>) -> bool {
    exists|i: int| 0 <= i < groups.len() && (#[trigger] groups[i])@ == "sysop"@
}

/// Decides the forward-auth visibility check: a missing wiki or one not
/// ready is not found; a public wiki passes, an unlisted one passes with
/// a no-index marker, a private one passes only a sysop caller, and an
/// unknown stored visibility is refused.
pub fn visibility_check(row: Option<(&String, &String)>, groups: &Vec<String>) -> (r:
    VisibilityOutcome)
    ensures
        match row {
            None => r is NotFound,
            Some((visibility, status)) => {
                if status@ != "ready"@ {
                    r is NotReady
                } else if visibility@ == "public"@ {
                    r is PassPublic
                } else if visibility@ == "unlisted"@ {
                    r is PassUnlisted
                } else if visibility@ == "private"@ {
                    if spec_has_sysop(groups@) {
                        r is PassPrivateSysop
                    } else {
                        r is ForbiddenPrivate
                    }
                } else {
                    r is UnknownVisibility
                }
            },
        },
{
    let (visibility, status) = match row {
        Some(p) => p,
        None => {
            return VisibilityOutcome::NotFound;
        },
    };
    if !str_eq_str(status.as_str(), "ready") {
        return VisibilityOutcome::NotReady;
    }
    if str_eq_str(visibility.as_str(), "public") {
        VisibilityOutcome::PassPublic
    } else if str_eq_str(visibility.as_str(), "unlisted") {
        VisibilityOutcome::PassUnlisted
    } else if str_eq_str(visibility.as_str(), "private") {
        let mut i: usize = 0;
        while i < groups.len()
            invariant
                i <= groups@.len(),
                forall|k: int| 0 <= k < i ==> (#[trigger] groups@[k])@ != "sysop"@,
                (row matches Some(p) && p.0@ == visibility@ && p.1@ == status@),
                visibility@ == "private"@,
                visibility@ != "public"@,
                visibility@ != "unlisted"@,
                status@ == "ready"@,
            decreases groups@.len() - i,
        {
            if str_eq_str(groups[i].as_str(), "sysop") {
                return VisibilityOutcome::PassPrivateSysop;
            }
            i = i + 1;
        }
        VisibilityOutcome::ForbiddenPrivate
    } else {
        VisibilityOutcome::UnknownVisibility
    }
}

/// Whether bytes begin with a PNG, ICO or JPEG signature.
pub open spec fn spec_image_magic(b: Seq<u8>) -> bool {
    ||| (b.len() >= 4 && b[0] == 0x89 && b[1] == 0x50 && b[2] == 0x4e && b[3] == 0x47)
    ||| (b.len() >= 4 && b[0] == 0x00 && b[1] == 0x00 && b[2] == 0x01 && b[3] == 0x00)
    ||| (b.len() >= 3 && b[0] == 0xff && b[1] == 0xd8 && b[2] == 0xff)
}

/// Checks an uploaded favicon: at most 2 MiB, and recognizably PNG, ICO
/// or JPEG; oversize data rejects with 400 `file_too_large`, anything
/// unrecognized with 400 `invalid_type`.
pub fn favicon_check(bytes: &Vec<u8>) -> (r: Result<(), ApiError>)
    ensures
        (r is Ok) == (bytes@.len() <= 2 * 1024 * 1024 && spec_image_magic(bytes@)),
        match r {
            Ok(()) => true,
            Err(e) => {
                if bytes@.len() > 2 * 1024 * 1024 {
                    e.status == 400 && e.code@ == "file_too_large"@
                } else {
                    e.status == 400 && e.code@ == "invalid_type"@
                }
            },
        },
{
    if bytes.len() > 2 * 1024 * 1024 {
        return Err(ApiError::new(400, "file_too_large", String::from_str("max 2MB")));
    }
    let is_png = bytes.len() >= 4 && bytes[0] == 0x89 && bytes[1] == 0x50 && bytes[2] == 0x4e
        && bytes[3] == 0x47;
    let is_ico = bytes.len() >= 4 && bytes[0] == 0x00 && bytes[1] == 0x00 && bytes[2] == 0x01
        && bytes[3] == 0x00;
    let is_jpg = bytes.len() >= 3 && bytes[0] == 0xff && bytes[1] == 0xd8 && bytes[2] == 0xff;
    if is_png || is_ico || is_jpg {
        Ok(())
    } else {
        Err(ApiError::new(400, "invalid_type", String::from_str("expect PNG/ICO/JPEG")))
    }
}

/// Everything the idempotent delete tears down for an existing wiki,
/// best-effort at the caller: the slug-scoped config dir, the target
/// dir, the per-wiki database and user, the permission rows and the
/// wiki row.
#[derive(Debug)]
pub struct TeardownPlan {
    pub wiki_id: u64,
    pub slug: String,
    pub config_dir: String,
    pub target_dir: String,
    pub db_statements: Vec<String>,
}

/// Decides a delete request. An invalid slug rejects with 400; a slug
/// with no wiki succeeds with nothing to do, so deleting twice succeeds
/// twice; an anonymous caller rejects with 401 and a non-owner with 403;
/// the owner gets the full teardown plan.
pub fn delete_wiki(
    slug: &str,
    wikifarm_dir: &str,
    config_dir: &str,
    lookup: Option<(u64, u64)>,
    auth_user_id: u64,
) -> (r: Result<Option<TeardownPlan>, ApiError>)
    ensures
        !spec_valid_slug(slug@) ==> (r matches Err(e) && e.status == 400 && e.code@
            == "param_invalid"@),
        spec_valid_slug(slug@) ==> (match lookup {
            None => r matches Ok(None),
            Some((wiki_id, owner_id)) => {
                if auth_user_id == 0 {
                    r matches Err(e) && e.status == 401 && e.code@ == "unauthorized"@
                } else if auth_user_id != owner_id {
                    r matches Err(e) && e.status == 403 && e.code@ == "not_owner"@
                } else {
                    r matches Ok(Some(p)) && p.wiki_id == wiki_id && p.slug@ == slug@
                        && p.config_dir@ == config_dir@ && p.target_dir@ == wikifarm_dir@ + "/"@
                        + slug@ && p.db_statements@.len() == 3 && (forall|k: int| 0 <= k < 3
                        ==> (#[trigger] p.db_statements@[k])@ == spec_deprovision_stmts(
                            slug@,
                            slug@,
                        )[k])
                }
            },
        }),
{
    if !is_valid_slug(slug) {
        let msg = String::from_str("parameter ").concat(slug).concat(" is invalid");
        return Err(ApiError::new(400, "param_invalid", msg));
    }
    let (wiki_id, owner_id) = match lookup {
        Some(p) => p,
        None => {
            return Ok(None);
        },
    };
    if auth_user_id == 0 {
        return Err(ApiError::new(401, "unauthorized", String::from_str("login required")));
    }
    if auth_user_id != owner_id {
        return Err(ApiError::new(403, "not_owner", String::from_str("not owner")));
    }
    proof {
        lemma_slug_is_ident(slug@);
    }
    let db_statements = match deprovision_statements(slug, slug) {
        Ok(v) => v,
        Err(_) => Vec::new(),
    };
    let mut target: Vec<char> = Vec::new();
    append_str(&mut target, wikifarm_dir);
    append_str(&mut target, "/");
    append_str(&mut target, slug);
    Ok(Some(TeardownPlan {
        wiki_id,
        slug: String::from_str(slug),
        config_dir: String::from_str(config_dir),
        target_dir: chars_to_string(&target),
        db_statements,
    }))
}

/// One symlink to create: a link at `link` pointing at `target`.
#[derive(Debug)]
pub struct LinkPair {
    pub target: String,
    pub link: String,
}

/// The sync plan for extensions or skins: the base directory to create
/// and one link per requested item.
#[derive(Debug)]
pub struct SyncPlan {
    pub dest_base: String,
    pub pairs: Vec<LinkPair>,
}

/// Lays out an extensions or skins sync: accepted exactly when the slug
/// and every requested directory name pass their whitelists; each item
/// links `<wikifarm_dir>/<slug>/<subdir>/<item>` at the template's
/// matching entry.
pub fn sync_subdirs_plan(
    slug: &str,
    items: &Vec<String>,
    template_dir: &str,
    wikifarm_dir: &str,
    subdir: &str,
) -> (r: Result<SyncPlan, ApiError>)
    ensures
        (r is Ok) == (spec_valid_slug(slug@) && forall|i: int| 0 <= i < items@.len()
            ==> spec_valid_ident((#[trigger] items@[i])@)),
        match r {
            Ok(p) => {
                &&& p.dest_base@ == wikifarm_dir@ + "/"@ + slug@ + "/"@ + subdir@
                &&& p.pairs@.len() == items@.len()
                &&& forall|i: int| 0 <= i < items@.len() ==> (#[trigger] p.pairs@[i]).target@
                    == template_dir@ + "/"@ + subdir@ + "/"@ + items@[i]@
                &&& forall|i: int| 0 <= i < items@.len() ==> (#[trigger] p.pairs@[i]).link@
                    == wikifarm_dir@ + "/"@ + slug@ + "/"@ + subdir@ + "/"@ + items@[i]@
            },
            Err(e) => e.status == 400 && e.code@ == "param_invalid"@,
        },
{
    if !is_valid_slug(slug) {
        let msg = String::from_str("parameter ").concat(slug).concat(" is invalid");
        return Err(ApiError::new(400, "param_invalid", msg));
    }
    let mut dest_base: Vec<char> = Vec::new();
    append_str(&mut dest_base, wikifarm_dir);
    append_str(&mut dest_base, "/");
    append_str(&mut dest_base, slug);
    append_str(&mut dest_base, "/");
    append_str(&mut dest_base, subdir);
    let mut pairs: Vec<LinkPair> = Vec::new();
    let mut i: usize = 0;
    while i < items.len()
        invariant
            i <= items@.len(),
            spec_valid_slug(slug@),
            pairs@.len() == i,
            forall|k: int| 0 <= k < i ==> spec_valid_ident((#[trigger] items@[k])@),
            forall|k: int| 0 <= k < i ==> (#[trigger] pairs@[k]).target@ == template_dir@ + "/"@
                + subdir@ + "/"@ + items@[k]@,
            forall|k: int| 0 <= k < i ==> (#[trigger] pairs@[k]).link@ == wikifarm_dir@ + "/"@
                + slug@ + "/"@ + subdir@ + "/"@ + items@[k]@,
        decreases items@.len() - i,
    {
        let item = &items[i];
        if !is_valid_ident(item.as_str()) {
            let msg = String::from_str("parameter ").concat(item.as_str()).concat(" is invalid");
            return Err(ApiError::new(400, "param_invalid", msg));
        }
        let mut target: Vec<char> = Vec::new();
        append_str(&mut target, template_dir);
        append_str(&mut target, "/");
        append_str(&mut target, subdir);
        append_str(&mut target, "/");
        append_str(&mut target, item.as_str());
        let mut link: Vec<char> = Vec::new();
        append_str(&mut link, wikifarm_dir);
        append_str(&mut link, "/");
        append_str(&mut link, slug);
        append_str(&mut link, "/");
        append_str(&mut link, subdir);
        append_str(&mut link, "/");
        append_str(&mut link, item.as_str());
        pairs.push(LinkPair { target: chars_to_string(&target), link: chars_to_string(&link) });
        i = i + 1;
    }
    Ok(SyncPlan { dest_base: chars_to_string(&dest_base), pairs })
}

} // verus!
