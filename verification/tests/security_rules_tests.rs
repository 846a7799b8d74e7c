use firebase_db::security_rules::{
    common_rules, Condition, Expression, Permission, Rule, RuleBuilder, SecurityRules,
};

#[test]
fn permissions_have_their_words() {
    let words: Vec<String> = [
        Permission::Read,
        Permission::Write,
        Permission::Create,
        Permission::Update,
        Permission::Delete,
        Permission::List,
        Permission::Get,
    ]
    .iter()
    .map(|p| p.to_text())
    .collect();
    assert_eq!(words, vec!["read", "write", "create", "update", "delete", "list", "get"]);
}

#[test]
fn expressions_are_written_in_the_rule_language() {
    assert_eq!(Expression::True.to_text(), "true");
    assert_eq!(Expression::False.to_text(), "false");
    assert_eq!(Expression::IsAuthenticated.to_text(), "request.auth != null");
    assert_eq!(
        Expression::IsOwner("userId".to_string()).to_text(),
        "request.auth.uid == resource.data.userId"
    );
    assert_eq!(
        Expression::HasRole("admin".to_string()).to_text(),
        "request.auth.token.role == 'admin'"
    );
    assert_eq!(
        Expression::FieldEquals("status".to_string(), "open".to_string()).to_text(),
        "resource.data.status == 'open'"
    );
    assert_eq!(Expression::Custom("a in b".to_string()).to_text(), "a in b");
    let nested = Expression::Or(
        Box::new(Expression::And(
            Box::new(Expression::IsAuthenticated),
            Box::new(Expression::Not(Box::new(Expression::False))),
        )),
        Box::new(Expression::HasRole("admin".to_string())),
    );
    assert_eq!(
        nested.to_text(),
        "((request.auth != null && !(false)) || request.auth.token.role == 'admin')"
    );
}

#[test]
fn conditions_allow_or_deny() {
    assert_eq!(
        Condition::Allow(Permission::Read, Expression::True).to_text(),
        "allow read: if true;"
    );
    assert_eq!(
        Condition::Deny(Permission::Delete, Expression::IsAuthenticated).to_text(),
        "deny delete: if request.auth != null;"
    );
}

#[test]
fn a_builder_collects_conditions_in_order() {
    let rule = RuleBuilder::new("/posts/{postId}")
        .allow_read_if(Expression::True)
        .allow_write_if(Expression::False)
        .allow_create_if(Expression::IsAuthenticated)
        .allow_update_if(Expression::IsAuthenticated)
        .allow_delete_if(Expression::HasRole("admin".to_string()))
        .allow_authenticated_read()
        .allow_authenticated_write()
        .public_read()
        .build();
    assert_eq!(rule.path, "/posts/{postId}");
    let lines: Vec<String> = rule.conditions.iter().map(|c| c.to_text()).collect();
    assert_eq!(
        lines,
        vec![
            "allow read: if true;",
            "allow write: if false;",
            "allow create: if request.auth != null;",
            "allow update: if request.auth != null;",
            "allow delete: if request.auth.token.role == 'admin';",
            "allow read: if request.auth != null;",
            "allow write: if request.auth != null;",
            "allow read: if true;",
        ]
    );
}

#[test]
fn the_shortcuts_add_two_conditions_each() {
    let rule = SecurityRules::collection("/x/{id}")
        .allow_owner_only("owner")
        .allow_admin_only()
        .deny_all()
        .build();
    let lines: Vec<String> = rule.conditions.iter().map(|c| c.to_text()).collect();
    assert_eq!(
        lines,
        vec![
            "allow read: if request.auth.uid == resource.data.owner;",
            "allow write: if request.auth.uid == resource.data.owner;",
            "allow read: if request.auth.token.role == 'admin';",
            "allow write: if request.auth.token.role == 'admin';",
            "deny read: if true;",
            "deny write: if true;",
        ]
    );
}

#[test]
fn rules_without_a_rule_are_header_and_footer() {
    assert_eq!(
        SecurityRules::new().generate(),
        "rules_version = '2';\nservice cloud.firestore {\n  match /databases/{database}/documents {\n  }\n}\n"
    );
}

#[test]
fn rules_are_generated_block_by_block() {
    let mut rules = SecurityRules::new();
    rules.add_rule(RuleBuilder::new("/a/{id}").public_read().deny_all().build());
    rules.add_rule(Rule { path: "/b/{id}".to_string(), conditions: Vec::new() });
    let expected = [
        "rules_version = '2';\n",
        "service cloud.firestore {\n",
        "  match /databases/{database}/documents {\n",
        "\n    match /a/{id} {\n",
        "      allow read: if true;\n",
        "      deny read: if true;\n",
        "      deny write: if true;\n",
        "    }\n",
        "\n    match /b/{id} {\n",
        "    }\n",
        "  }\n",
        "}\n",
    ]
    .concat();
    assert_eq!(rules.generate(), expected);
}

#[test]
fn the_common_rules_cover_users_public_and_admin() {
    let expected = [
        "rules_version = '2';\n",
        "service cloud.firestore {\n",
        "  match /databases/{database}/documents {\n",
        "\n    match /users/{userId} {\n",
        "      allow read: if request.auth != null;\n",
        "      allow write: if request.auth.uid == resource.data.userId;\n",
        "    }\n",
        "\n    match /public/{document=**} {\n",
        "      allow read: if true;\n",
        "      allow write: if request.auth.token.role == 'admin';\n",
        "    }\n",
        "\n    match /admin/{document=**} {\n",
        "      allow read: if request.auth.token.role == 'admin';\n",
        "      allow write: if request.auth.token.role == 'admin';\n",
        "    }\n",
        "  }\n",
        "}\n",
    ]
    .concat();
    assert_eq!(common_rules().generate(), expected);
}
