use wikifarm_service::permissions::{
    rows_to_body, set_wiki_permissions, set_wiki_permissions_now, GroupPerms, PermissionsBody,
};

fn body(allow: Vec<(&str, Vec<&str>)>, deny: Vec<(&str, Vec<&str>)>) -> PermissionsBody {
    let conv = |list: Vec<(&str, Vec<&str>)>| {
        list.into_iter()
            .map(|(g, ps)| GroupPerms {
                group: String::from(g),
                perms: ps.into_iter().map(String::from).collect(),
            })
            .collect()
    };
    PermissionsBody { allow: conv(allow), deny: conv(deny) }
}

#[test]
fn write_merges_sorts_and_renders() {
    let b = body(
        vec![("sysop", vec!["edit", "delete"]), ("user", vec!["read"])],
        vec![("sysop", vec!["delete"])],
    );
    let w = set_wiki_permissions(7, &b, "2024-01-02T03:04:05").unwrap();
    assert_eq!(w.wiki_id, 7);
    let triples: Vec<(String, String, bool)> = w
        .rows
        .iter()
        .map(|r| (r.group.clone(), r.perm.clone(), r.allowed))
        .collect();
    assert_eq!(
        triples,
        vec![
            (String::from("sysop"), String::from("delete"), false),
            (String::from("sysop"), String::from("edit"), true),
            (String::from("user"), String::from("read"), true),
        ]
    );
    let expected = "<?php\n// Auto-generated permissions file. Do NOT edit manually.\n// Generated at 2024-01-02T03:04:05Z\n$wgGroupPermissions['sysop']['delete'] = false;\n$wgGroupPermissions['sysop']['edit'] = true;\n$wgGroupPermissions['user']['read'] = true;\n";
    assert_eq!(w.php, expected);
}

#[test]
fn duplicate_pairs_collapse_deny_wins() {
    let b = body(
        vec![("g", vec!["p", "p"]), ("g", vec!["p"])],
        vec![("g", vec!["p"])],
    );
    let w = set_wiki_permissions(1, &b, "ts").unwrap();
    assert_eq!(w.rows.len(), 1);
    assert_eq!(w.rows[0].group, "g");
    assert_eq!(w.rows[0].perm, "p");
    assert!(!w.rows[0].allowed);
}

#[test]
fn write_then_read_returns_same_map() {
    let b = body(
        vec![("sysop", vec!["edit", "delete"]), ("user", vec!["read"])],
        vec![("sysop", vec!["delete"])],
    );
    let w = set_wiki_permissions(7, &b, "ts").unwrap();
    let back = rows_to_body(&w.rows);
    let allow: Vec<(String, Vec<String>)> = back
        .allow
        .iter()
        .map(|g| (g.group.clone(), g.perms.clone()))
        .collect();
    let deny: Vec<(String, Vec<String>)> = back
        .deny
        .iter()
        .map(|g| (g.group.clone(), g.perms.clone()))
        .collect();
    assert_eq!(
        allow,
        vec![
            (String::from("sysop"), vec![String::from("edit")]),
            (String::from("user"), vec![String::from("read")]),
        ]
    );
    assert_eq!(deny, vec![(String::from("sysop"), vec![String::from("delete")])]);
}

#[test]
fn invalid_group_name_rejected() {
    let b = body(vec![("bad~group", vec!["p"])], vec![]);
    let e = set_wiki_permissions(1, &b, "ts").unwrap_err();
    assert_eq!(e.status, 400);
    assert_eq!(e.code, "param_invalid");
}

#[test]
fn group_with_empty_list_still_validated() {
    let ok = body(vec![("fine-group", vec![])], vec![]);
    let w = set_wiki_permissions(1, &ok, "ts").unwrap();
    assert_eq!(w.rows.len(), 0);
    let bad = body(vec![("bad~group", vec![])], vec![]);
    assert!(set_wiki_permissions(1, &bad, "ts").is_err());
}

#[test]
fn invalid_permission_name_rejected() {
    let b = body(vec![("g", vec!["per|m"])], vec![]);
    let e = set_wiki_permissions(1, &b, "ts").unwrap_err();
    assert_eq!(e.code, "param_invalid");
}

#[test]
fn write_with_clock_stamp() {
    let b = body(vec![("g", vec!["p"])], vec![]);
    let w = set_wiki_permissions_now(3, &b).unwrap();
    assert_eq!(w.wiki_id, 3);
    assert_eq!(w.rows.len(), 1);
    assert!(w.php.starts_with(
        "<?php\n// Auto-generated permissions file. Do NOT edit manually.\n// Generated at "
    ));
    assert!(w.php.ends_with("$wgGroupPermissions['g']['p'] = true;\n"));
}
