//! The per-wiki database step as statement text: identifier whitelisting,
//! single-quote escaping for the generated password, and the exact
//! statements the provision and deprovision rounds send, one statement
//! per round trip. Identifiers are wrapped in backticks and never
//! escaped: anything outside the whitelist is rejected.

use vstd::prelude::*;
use crate::strutil::{append_str, str_to_chars, chars_to_string};
use crate::validate::{spec_valid_ident, is_valid_ident};

verus! {

/// A failure of the database step, as the callers report it.
#[derive(Debug)]
pub enum DbProvError {
    Sqlx(String),
    InvalidIdentifier(String),
    InvalidLiteral(String),
}

/// Control characters as the literal check rejects them: the C0 range,
/// DEL, and the C1 range.
pub open spec fn is_control_char(c: char) -> bool {
    (c as u32) < 0x20 || (0x7f <= (c as u32) && (c as u32) <= 0x9f)
}

/// Whether a string holds any control or NUL character.
pub open spec fn spec_has_control(s: Seq<char>) -> bool {
    exists|i: int| 0 <= i < s.len() && is_control_char(#[trigger] s[i])
}

/// The string with every single quote doubled, for inclusion inside
/// single quotes.
pub open spec fn spec_sql_escaped(s: Seq<char>) -> Seq<char>
    decreases s.len(),
{
    if s.len() == 0 {
        Seq::<char>::empty()
    } else {
        (if s[0] == '\'' { seq!['\'', '\''] } else { seq![s[0]] }) + spec_sql_escaped(
            s.skip(1),
        )
    }
}

/// Escapes a string literal by doubling single quotes; rejects strings
/// holding NUL or control characters outright.
pub fn escape_string_literal(s: &str) -> (r: Result<String, DbProvError>)
    ensures
        (r is Ok) == !spec_has_control(s@),
        match r {
            Ok(e) => e@ == spec_sql_escaped(s@),
            Err(err) => err is InvalidLiteral,
        },
{
    let v = str_to_chars(s);
    let mut out: Vec<char> = Vec::new();
    let mut i: usize = 0;
    proof {
        assert(s@.skip(0) =~= s@);
        assert(Seq::<char>::empty() + spec_sql_escaped(s@) =~= spec_sql_escaped(s@));
    }
    while i < v.len()
        invariant
            i <= v@.len(),
            v@ == s@,
            forall|j: int| 0 <= j < i ==> !is_control_char(#[trigger] s@[j]),
            out@ + spec_sql_escaped(s@.skip(i as int)) == spec_sql_escaped(s@),
        decreases v@.len() - i,
    {
        let c = v[i];
        let u = c as u32;
        if u < 0x20 || (0x7f <= u && u <= 0x9f) {
            return Err(DbProvError::InvalidLiteral(String::from_str(
                "control/NUL characters in string",
            )));
        }
        let ghost pre = out@;
        if c == '\'' {
            out.push('\'');
            out.push('\'');
        } else {
            out.push(c);
        }
        proof {
            assert(s@.skip(i as int).skip(1) =~= s@.skip(i + 1));
            assert(s@.skip(i as int)[0] == c);
            assert(out@ + spec_sql_escaped(s@.skip(i + 1)) =~= pre + spec_sql_escaped(
                s@.skip(i as int),
            ));
        }
        i = i + 1;
    }
    proof {
        assert(s@.skip(i as int).len() == 0);
        assert(out@ =~= spec_sql_escaped(s@));
    }
    Ok(chars_to_string(&out))
}

/// The statement creating the per-wiki database.
pub open spec fn spec_create_db_stmt(db: Seq<char>) -> Seq<char> {
    "CREATE DATABASE IF NOT EXISTS `"@ + db + "`"@
}

/// The statement creating the per-wiki user with its password.
pub open spec fn spec_create_user_stmt(user: Seq<char>, escaped_pw: Seq<char>) -> Seq<char> {
    "CREATE USER IF NOT EXISTS '"@ + user + "'@'%' IDENTIFIED BY '"@ + escaped_pw + "'"@
}

/// The blanket grant on the per-wiki database.
pub open spec fn spec_grant_wiki_stmt(db: Seq<char>, user: Seq<char>) -> Seq<char> {
    "GRANT ALL PRIVILEGES ON `"@ + db + "`.* TO '"@ + user + "'@'%'"@
}

/// A fine-grained grant on one table of the shared schema.
pub open spec fn spec_grant_shared_stmt(
    privileges: Seq<char>,
    shared: Seq<char>,
    table: Seq<char>,
    user: Seq<char>,
) -> Seq<char> {
    "GRANT "@ + privileges + " ON `"@ + shared + "`.`"@ + table + "` TO '"@ + user + "'@'%'"@
}

/// The provision round: create database, create user, blanket grant,
/// six fine-grained grants on the shared schema, flush privileges.
pub open spec fn spec_provision_stmts(
    db: Seq<char>,
    user: Seq<char>,
    escaped_pw: Seq<char>,
    shared: Seq<char>,
) -> Seq<Seq<char>> {
    seq![
        spec_create_db_stmt(db),
        spec_create_user_stmt(user, escaped_pw),
        spec_grant_wiki_stmt(db, user),
        spec_grant_shared_stmt("SELECT, UPDATE, INSERT"@, shared, "user"@, user),
        spec_grant_shared_stmt("SELECT, UPDATE, INSERT, DELETE"@, shared, "user_properties"@, user),
        spec_grant_shared_stmt("SELECT, UPDATE, INSERT"@, shared, "actor"@, user),
        spec_grant_shared_stmt("SELECT"@, shared, "oauth_registered_consumer"@, user),
        spec_grant_shared_stmt("SELECT"@, shared, "oauth_accepted_consumer"@, user),
        spec_grant_shared_stmt("SELECT"@, shared, "oauth2_access_tokens"@, user),
        "FLUSH PRIVILEGES"@,
    ]
}

fn build_grant_shared(privileges: &str, shared: &str, table: &str, user: &str) -> (r: String)
    ensures
        r@ == spec_grant_shared_stmt(privileges@, shared@, table@, user@),
{
    let mut out: Vec<char> = Vec::new();
    append_str(&mut out, "GRANT ");
    append_str(&mut out, privileges);
    append_str(&mut out, " ON `");
    append_str(&mut out, shared);
    append_str(&mut out, "`.`");
    append_str(&mut out, table);
    append_str(&mut out, "` TO '");
    append_str(&mut out, user);
    append_str(&mut out, "'@'%'");
    proof {
        assert(out@ =~= spec_grant_shared_stmt(privileges@, shared@, table@, user@));
    }
    chars_to_string(&out)
}

/// Builds the provision round: accepts exactly the calls whose three
/// identifiers match the identifier whitelist and whose password is free
/// of control characters, and returns the ten statements in order.
pub fn provision_statements(
    wiki_db_name: &str,
    wiki_db_user: &str,
    wiki_db_password: &str,
    shared_db_name: &str,
) -> (r: Result<Vec<String>, DbProvError>)
    ensures
        (r is Ok) == (spec_valid_ident(wiki_db_name@) && spec_valid_ident(wiki_db_user@)
            && spec_valid_ident(shared_db_name@) && !spec_has_control(wiki_db_password@)),
        match r {
            Ok(v) => v@.len() == 10 && forall|i: int| 0 <= i < 10
                ==> (#[trigger] v@[i])@ == spec_provision_stmts(
                    wiki_db_name@,
                    wiki_db_user@,
                    spec_sql_escaped(wiki_db_password@),
                    shared_db_name@,
                )[i],
            Err(e) => e is InvalidIdentifier || e is InvalidLiteral,
        },
{
    if !is_valid_ident(wiki_db_name) {
        return Err(DbProvError::InvalidIdentifier(String::from_str(wiki_db_name)));
    }
    if !is_valid_ident(wiki_db_user) {
        return Err(DbProvError::InvalidIdentifier(String::from_str(wiki_db_user)));
    }
    if !is_valid_ident(shared_db_name) {
        return Err(DbProvError::InvalidIdentifier(String::from_str(shared_db_name)));
    }
    let pw = match escape_string_literal(wiki_db_password) {
        Ok(pw) => pw,
        Err(e) => {
            return Err(e);
        },
    };
    let mut stmts: Vec<String> = Vec::new();

    let mut s1: Vec<char> = Vec::new();
    append_str(&mut s1, "CREATE DATABASE IF NOT EXISTS `");
    append_str(&mut s1, wiki_db_name);
    append_str(&mut s1, "`");
    proof {
        assert(s1@ =~= spec_create_db_stmt(wiki_db_name@));
    }
    stmts.push(chars_to_string(&s1));

    let mut s2: Vec<char> = Vec::new();
    append_str(&mut s2, "CREATE USER IF NOT EXISTS '");
    append_str(&mut s2, wiki_db_user);
    append_str(&mut s2, "'@'%' IDENTIFIED BY '");
    append_str(&mut s2, pw.as_str());
    append_str(&mut s2, "'");
    proof {
        assert(s2@ =~= spec_create_user_stmt(wiki_db_user@, spec_sql_escaped(wiki_db_password@)));
    }
    stmts.push(chars_to_string(&s2));

    let mut s3: Vec<char> = Vec::new();
    append_str(&mut s3, "GRANT ALL PRIVILEGES ON `");
    append_str(&mut s3, wiki_db_name);
    append_str(&mut s3, "`.* TO '");
    append_str(&mut s3, wiki_db_user);
    append_str(&mut s3, "'@'%'");
    proof {
        assert(s3@ =~= spec_grant_wiki_stmt(wiki_db_name@, wiki_db_user@));
    }
    stmts.push(chars_to_string(&s3));

    stmts.push(build_grant_shared("SELECT, UPDATE, INSERT", shared_db_name, "user", wiki_db_user));
    stmts.push(build_grant_shared(
        "SELECT, UPDATE, INSERT, DELETE",
        shared_db_name,
        "user_properties",
        wiki_db_user,
    ));
    stmts.push(build_grant_shared("SELECT, UPDATE, INSERT", shared_db_name, "actor", wiki_db_user));
    stmts.push(build_grant_shared("SELECT", shared_db_name, "oauth_registered_consumer", wiki_db_user));
    stmts.push(build_grant_shared("SELECT", shared_db_name, "oauth_accepted_consumer", wiki_db_user));
    stmts.push(build_grant_shared("SELECT", shared_db_name, "oauth2_access_tokens", wiki_db_user));
    stmts.push(String::from_str("FLUSH PRIVILEGES"));
    Ok(stmts)
}

/// The deprovision round: drop the user first so its grants go, then the
/// database, then flush privileges; each is best-effort at the caller.
pub open spec fn spec_deprovision_stmts(db: Seq<char>, user: Seq<char>) -> Seq<Seq<char>> {
    seq![
        "DROP USER IF EXISTS '"@ + user + "'@'%'"@,
        "DROP DATABASE IF EXISTS `"@ + db + "`"@,
        "FLUSH PRIVILEGES"@,
    ]
}

/// Builds the deprovision round: accepts exactly the calls whose two
/// identifiers match the identifier whitelist, and returns the three
/// statements in order.
pub fn deprovision_statements(wiki_db_name: &str, wiki_db_user: &str) -> (r: Result<
    Vec<String>,
    DbProvError,
>)
    ensures
        (r is Ok) == (spec_valid_ident(wiki_db_name@) && spec_valid_ident(wiki_db_user@)),
        match r {
            Ok(v) => v@.len() == 3 && forall|i: int| 0 <= i < 3
                ==> (#[trigger] v@[i])@ == spec_deprovision_stmts(wiki_db_name@, wiki_db_user@)[i],
            Err(e) => e is InvalidIdentifier,
        },
{
    if !is_valid_ident(wiki_db_name) {
        return Err(DbProvError::InvalidIdentifier(String::from_str(wiki_db_name)));
    }
    if !is_valid_ident(wiki_db_user) {
        return Err(DbProvError::InvalidIdentifier(String::from_str(wiki_db_user)));
    }
    let mut stmts: Vec<String> = Vec::new();

    let mut s1: Vec<char> = Vec::new();
    append_str(&mut s1, "DROP USER IF EXISTS '");
    append_str(&mut s1, wiki_db_user);
    append_str(&mut s1, "'@'%'");
    proof {
        assert(s1@ =~= spec_deprovision_stmts(wiki_db_name@, wiki_db_user@)[0]);
    }
    stmts.push(chars_to_string(&s1));

    let mut s2: Vec<char> = Vec::new();
    append_str(&mut s2, "DROP DATABASE IF EXISTS `");
    append_str(&mut s2, wiki_db_name);
    append_str(&mut s2, "`");
    proof {
        assert(s2@ =~= spec_deprovision_stmts(wiki_db_name@, wiki_db_user@)[1]);
    }
    stmts.push(chars_to_string(&s2));

    stmts.push(String::from_str("FLUSH PRIVILEGES"));
    Ok(stmts)
}

/// The statement granting the creator elevated groups on the new wiki's
/// own database: bureaucrat, translator and sysop, inserted with
/// `INSERT IGNORE` so a rerun stays idempotent. The database name is
/// interpolated and must already have passed the identifier whitelist.
pub open spec fn spec_owner_groups_stmt(db: Seq<char>) -> Seq<char> {
    "INSERT IGNORE INTO `"@ + db
        + "`.user_groups (ug_user, ug_group) VALUES (?, 'bureaucrat'), (?, 'translator'), (?, 'sysop')"@
}

/// Builds the owner-groups grant for a validated database name.
pub fn owner_groups_statement(db_name: &str) -> (r: Result<String, DbProvError>)
    ensures
        (r is Ok) == spec_valid_ident(db_name@),
        match r {
            Ok(v) => v@ == spec_owner_groups_stmt(db_name@),
            Err(e) => e is InvalidIdentifier,
        },
{
    if !is_valid_ident(db_name) {
        return Err(DbProvError::InvalidIdentifier(String::from_str(db_name)));
    }
    let mut out: Vec<char> = Vec::new();
    append_str(&mut out, "INSERT IGNORE INTO `");
    append_str(&mut out, db_name);
    append_str(
        &mut out,
        "`.user_groups (ug_user, ug_group) VALUES (?, 'bureaucrat'), (?, 'translator'), (?, 'sysop')",
    );
    proof {
        assert(out@ =~= spec_owner_groups_stmt(db_name@));
    }
    Ok(chars_to_string(&out))
}

} // verus!
