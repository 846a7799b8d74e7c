//! Access rules for the store, built in code and written out in the store's
//! rule language.

use vstd::prelude::*;
use crate::text::{concat2, concat3};

verus! {

#[derive(Debug)]
pub struct SecurityRules {
    rules: Vec<Rule>,
}

#[derive(Debug)]
pub struct Rule {
    pub path: String,
    pub conditions: Vec<Condition>,
}

#[derive(Debug)]
pub enum Condition {
    Allow(Permission, Expression),
    Deny(Permission, Expression),
}

#[derive(Debug, Clone, Copy, PartialEq, Eq, Structural)]
pub enum Permission {
    Read,
    Write,
    Create,
    Update,
    Delete,
    List,
    Get,
}

#[derive(Debug)]
pub enum Expression {
    True,
    False,
    IsAuthenticated,
    IsOwner(String),
    HasRole(String),
    FieldEquals(String, String),
    And(Box<Expression>, Box<Expression>),
    Or(Box<Expression>, Box<Expression>),
    Not(Box<Expression>),
    Custom(String),
}

impl Permission {
    /// The word of the rule language for this permission.
    pub open spec fn text(self) -> Seq<char> {
        match self {
            Permission::Read => "read"@,
            Permission::Write => "write"@,
            Permission::Create => "create"@,
            Permission::Update => "update"@,
            Permission::Delete => "delete"@,
            Permission::List => "list"@,
            Permission::Get => "get"@,
        }
    }

    pub fn to_text(&self) -> (r: String)
        ensures
            r@ == self.text(),
    {
        let word = match self {
            Permission::Read => "read",
            Permission::Write => "write",
            Permission::Create => "create",
            Permission::Update => "update",
            Permission::Delete => "delete",
            Permission::List => "list",
            Permission::Get => "get",
        };
        String::from_str(word)
    }
}

impl Expression {
    /// The expression in the rule language.
    pub open spec fn text(&self) -> Seq<char>
        decreases self,
    {
        match self {
            Expression::True => "true"@,
            Expression::False => "false"@,
            Expression::IsAuthenticated => "request.auth != null"@,
            Expression::IsOwner(field) => "request.auth.uid == resource.data."@ + field@,
            Expression::HasRole(role) => "request.auth.token.role == '"@ + role@ + "'"@,
            Expression::FieldEquals(field, value) => "resource.data."@ + field@ + " == '"@ + value@
                + "'"@,
            Expression::And(left, right) => "("@ + left.text() + " && "@ + right.text() + ")"@,
            Expression::Or(left, right) => "("@ + left.text() + " || "@ + right.text() + ")"@,
            Expression::Not(inner) => "!("@ + inner.text() + ")"@,
            Expression::Custom(source) => source@,
        }
    }

    pub fn to_text(&self) -> (r: String)
        ensures
            r@ == self.text(),
        decreases self,
    {
        match self {
            Expression::True => String::from_str("true"),
            Expression::False => String::from_str("false"),
            Expression::IsAuthenticated => String::from_str("request.auth != null"),
            Expression::IsOwner(field) => concat2(
                "request.auth.uid == resource.data.",
                field.as_str(),
            ),
            Expression::HasRole(role) => concat3("request.auth.token.role == '", role.as_str(), "'"),
            Expression::FieldEquals(field, value) => {
                let mut s = concat3("resource.data.", field.as_str(), " == '");
                s.append(value.as_str());
                s.append("'");
                s
            },
            Expression::And(left, right) => {
                let l = left.to_text();
                let r = right.to_text();
                let mut s = concat3("(", l.as_str(), " && ");
                s.append(r.as_str());
                s.append(")");
                s
            },
            Expression::Or(left, right) => {
                let l = left.to_text();
                let r = right.to_text();
                let mut s = concat3("(", l.as_str(), " || ");
                s.append(r.as_str());
                s.append(")");
                s
            },
            Expression::Not(inner) => {
                let i = inner.to_text();
                concat3("!(", i.as_str(), ")")
            },
            Expression::Custom(source) => source.clone(),
        }
    }
}

impl Condition {
    /// One line of a rule: `allow` or `deny`, the permission, and the test.
    pub open spec fn text(&self) -> Seq<char> {
        match self {
            Condition::Allow(perm, expr) => "allow "@ + perm.text() + ": if "@ + expr.text() + ";"@,
            Condition::Deny(perm, expr) => "deny "@ + perm.text() + ": if "@ + expr.text() + ";"@,
        }
    }

    pub fn to_text(&self) -> (r: String)
        ensures
            r@ == self.text(),
    {
        match self {
            Condition::Allow(perm, expr) => {
                let p = perm.to_text();
                let e = expr.to_text();
                let mut s = concat3("allow ", p.as_str(), ": if ");
                s.append(e.as_str());
                s.append(";");
                s
            },
            Condition::Deny(perm, expr) => {
                let p = perm.to_text();
                let e = expr.to_text();
                let mut s = concat3("deny ", p.as_str(), ": if ");
                s.append(e.as_str());
                s.append(";");
                s
            },
        }
    }
}

/// The lines of the conditions, each indented and ended by a line break.
pub open spec fn conditions_text(conditions: Seq<Condition>) -> Seq<char>
    decreases conditions.len(),
{
    if conditions.len() == 0 {
        Seq::empty()
    } else {
        conditions_text(conditions.drop_last()) + "      "@ + conditions.last().text() + "\n"@
    }
}

/// The block of one rule: its `match` line, its conditions, its closing brace.
pub open spec fn rule_text(rule: Rule) -> Seq<char> {
    "\n    match "@ + rule.path@ + " {\n"@ + conditions_text(rule.conditions@) + "    }\n"@
}

/// The blocks of the rules, in order.
pub open spec fn rules_text(rules: Seq<Rule>) -> Seq<char>
    decreases rules.len(),
{
    if rules.len() == 0 {
        Seq::empty()
    } else {
        rules_text(rules.drop_last()) + rule_text(rules.last())
    }
}

pub open spec fn rules_header() -> Seq<char> {
    "rules_version = '2';\nservice cloud.firestore {\n  match /databases/{database}/documents {\n"@
}

pub open spec fn rules_footer() -> Seq<char> {
    "  }\n}\n"@
}

/// An `allow` of `permission` for the owner named by the field `field`.
pub open spec fn allows_owner(c: Condition, permission: Permission, field: Seq<char>) -> bool {
    c matches Condition::Allow(p, Expression::IsOwner(f)) && p == permission && f@ == field
}

/// An `allow` of `permission` for the role `role`.
pub open spec fn allows_role(c: Condition, permission: Permission, role: Seq<char>) -> bool {
    c matches Condition::Allow(p, Expression::HasRole(r)) && p == permission && r@ == role
}

impl SecurityRules {
    /// The rules held, in the order in which they were added.
    pub closed spec fn rules(&self) -> Seq<Rule> {
        self.rules@
    }

    pub fn new() -> (r: Self)
        ensures
            r.rules() == Seq::<Rule>::empty(),
    {
        Self { rules: Vec::new() }
    }

    pub fn add_rule(&mut self, rule: Rule)
        ensures
            final(self).rules() == old(self).rules().push(rule),
    {
        self.rules.push(rule);
    }

    /// A builder for the rule of the documents under `path`.
    pub fn collection(path: &str) -> (r: RuleBuilder)
        ensures
            r.path() == path@,
            r.conditions() == Seq::<Condition>::empty(),
    {
        RuleBuilder::new(path)
    }

    /// The whole rule file: the header, one block for each rule, the footer.
    pub fn generate(&self) -> (r: String)
        ensures
            r@ == rules_header() + rules_text(self.rules()) + rules_footer(),
    {
        let mut output = String::from_str(
            "rules_version = '2';\nservice cloud.firestore {\n  match /databases/{database}/documents {\n",
        );
        let mut i: usize = 0;
        while i < self.rules.len()
            invariant
                i <= self.rules.len(),
                output@ == rules_header() + rules_text(self.rules@.take(i as int)),
            decreases self.rules.len() - i,
        {
            let rule = &self.rules[i];
            let ghost before = output@;
            output.append("\n    match ");
            output.append(rule.path.as_str());
            output.append(" {\n");
            let mut j: usize = 0;
            while j < rule.conditions.len()
                invariant
                    j <= rule.conditions.len(),
                    output@ == before + "\n    match "@ + rule.path@ + " {\n"@ + conditions_text(
                        rule.conditions@.take(j as int),
                    ),
                decreases rule.conditions.len() - j,
            {
                let line = rule.conditions[j].to_text();
                output.append("      ");
                output.append(line.as_str());
                output.append("\n");
                proof {
                    let next = rule.conditions@.take(j + 1);
                    assert(next.drop_last() =~= rule.conditions@.take(j as int));
                    assert(next.last() == rule.conditions@[j as int]);
                    assert(output@ =~= before + "\n    match "@ + rule.path@ + " {\n"@
                        + conditions_text(next));
                }
                j += 1;
            }
            output.append("    }\n");
            proof {
                assert(rule.conditions@.take(j as int) =~= rule.conditions@);
                let next = self.rules@.take(i + 1);
                assert(next.drop_last() =~= self.rules@.take(i as int));
                assert(next.last() == self.rules@[i as int]);
                assert(output@ =~= rules_header() + rules_text(next));
            }
            i += 1;
        }
        proof {
            assert(self.rules@.take(i as int) =~= self.rules@);
        }
        output.append("  }\n}\n");
        output
    }
}

#[derive(Debug)]
pub struct RuleBuilder {
    path: String,
    conditions: Vec<Condition>,
}

impl RuleBuilder {
    /// The path that the rule under construction is for.
    pub closed spec fn path(&self) -> Seq<char> {
        self.path@
    }

    /// The conditions added so far, in order.
    pub closed spec fn conditions(&self) -> Seq<Condition> {
        self.conditions@
    }

    pub fn new(path: &str) -> (r: Self)
        ensures
            r.path() == path@,
            r.conditions() == Seq::<Condition>::empty(),
    {
        Self { path: String::from_str(path), conditions: Vec::new() }
    }

    pub fn allow_read_if(self, expr: Expression) -> (r: Self)
        ensures
            r.path() == self.path(),
            r.conditions() == self.conditions().push(Condition::Allow(Permission::Read, expr)),
    {
        let mut this = self;
        this.conditions.push(Condition::Allow(Permission::Read, expr));
        this
    }

    pub fn allow_write_if(self, expr: Expression) -> (r: Self)
        ensures
            r.path() == self.path(),
            r.conditions() == self.conditions().push(Condition::Allow(Permission::Write, expr)),
    {
        let mut this = self;
        this.conditions.push(Condition::Allow(Permission::Write, expr));
        this
    }

    pub fn allow_create_if(self, expr: Expression) -> (r: Self)
        ensures
            r.path() == self.path(),
            r.conditions() == self.conditions().push(Condition::Allow(Permission::Create, expr)),
    {
        let mut this = self;
        this.conditions.push(Condition::Allow(Permission::Create, expr));
        this
    }

    pub fn allow_update_if(self, expr: Expression) -> (r: Self)
        ensures
            r.path() == self.path(),
            r.conditions() == self.conditions().push(Condition::Allow(Permission::Update, expr)),
    {
        let mut this = self;
        this.conditions.push(Condition::Allow(Permission::Update, expr));
        this
    }

    pub fn allow_delete_if(self, expr: Expression) -> (r: Self)
        ensures
            r.path() == self.path(),
            r.conditions() == self.conditions().push(Condition::Allow(Permission::Delete, expr)),
    {
        let mut this = self;
        this.conditions.push(Condition::Allow(Permission::Delete, expr));
        this
    }

    pub fn allow_authenticated_read(self) -> (r: Self)
        ensures
            r.path() == self.path(),
            r.conditions() == self.conditions().push(
                Condition::Allow(Permission::Read, Expression::IsAuthenticated),
            ),
    {
        let mut this = self;
        this.conditions.push(Condition::Allow(Permission::Read, Expression::IsAuthenticated));
        this
    }

    pub fn allow_authenticated_write(self) -> (r: Self)
        ensures
            r.path() == self.path(),
            r.conditions() == self.conditions().push(
                Condition::Allow(Permission::Write, Expression::IsAuthenticated),
            ),
    {
        let mut this = self;
        this.conditions.push(Condition::Allow(Permission::Write, Expression::IsAuthenticated));
        this
    }

    /// Reading and writing for the user whose id stands in the field `user_id_field`.
    pub fn allow_owner_only(self, user_id_field: &str) -> (r: Self)
        ensures
            r.path() == self.path(),
            r.conditions().len() == self.conditions().len() + 2,
            r.conditions().take(self.conditions().len() as int) == self.conditions(),
            allows_owner(
                r.conditions()[self.conditions().len() as int],
                Permission::Read,
                user_id_field@,
            ),
            allows_owner(
                r.conditions()[self.conditions().len() + 1int],
                Permission::Write,
                user_id_field@,
            ),
    {
        let mut this = self;
        this.conditions.push(
            Condition::Allow(Permission::Read, Expression::IsOwner(String::from_str(user_id_field))),
        );
        this.conditions.push(
            Condition::Allow(
                Permission::Write,
                Expression::IsOwner(String::from_str(user_id_field)),
            ),
        );
        assert(this.conditions@.take(self.conditions@.len() as int) =~= self.conditions@);
        this
    }

    /// Reading and writing for the role `admin`.
    pub fn allow_admin_only(self) -> (r: Self)
        ensures
            r.path() == self.path(),
            r.conditions().len() == self.conditions().len() + 2,
            r.conditions().take(self.conditions().len() as int) == self.conditions(),
            allows_role(r.conditions()[self.conditions().len() as int], Permission::Read, "admin"@),
            allows_role(r.conditions()[self.conditions().len() + 1int], Permission::Write, "admin"@),
    {
        let mut this = self;
        this.conditions.push(
            Condition::Allow(Permission::Read, Expression::HasRole(String::from_str("admin"))),
        );
        this.conditions.push(
            Condition::Allow(Permission::Write, Expression::HasRole(String::from_str("admin"))),
        );
        assert(this.conditions@.take(self.conditions@.len() as int) =~= self.conditions@);
        this
    }

    pub fn public_read(self) -> (r: Self)
        ensures
            r.path() == self.path(),
            r.conditions() == self.conditions().push(
                Condition::Allow(Permission::Read, Expression::True),
            ),
    {
        let mut this = self;
        this.conditions.push(Condition::Allow(Permission::Read, Expression::True));
        this
    }

    pub fn deny_all(self) -> (r: Self)
        ensures
            r.path() == self.path(),
            r.conditions() == self.conditions().push(
                Condition::Deny(Permission::Read, Expression::True),
            ).push(Condition::Deny(Permission::Write, Expression::True)),
    {
        let mut this = self;
        this.conditions.push(Condition::Deny(Permission::Read, Expression::True));
        this.conditions.push(Condition::Deny(Permission::Write, Expression::True));
        this
    }

    pub fn build(self) -> (r: Rule)
        ensures
            r.path@ == self.path(),
            r.conditions@ == self.conditions(),
    {
        Rule { path: self.path, conditions: self.conditions }
    }
}

/// A rule for `path` with exactly two conditions.
pub open spec fn is_rule_of_two(rule: Rule, path: Seq<char>) -> bool {
    rule.path@ == path && rule.conditions@.len() == 2
}

/// The rules that most projects start from: users read when signed in and
/// write their own document, everyone reads what is public and admins write it,
/// and only admins read and write what is theirs.
pub fn common_rules() -> (r: SecurityRules)
    ensures
        r.rules().len() == 3,
        is_rule_of_two(r.rules()[0], "/users/{userId}"@),
        r.rules()[0].conditions@[0] matches Condition::Allow(
            Permission::Read,
            Expression::IsAuthenticated,
        ),
        allows_owner(r.rules()[0].conditions@[1], Permission::Write, "userId"@),
        is_rule_of_two(r.rules()[1], "/public/{document=**}"@),
        r.rules()[1].conditions@[0] matches Condition::Allow(Permission::Read, Expression::True),
        allows_role(r.rules()[1].conditions@[1], Permission::Write, "admin"@),
        is_rule_of_two(r.rules()[2], "/admin/{document=**}"@),
        allows_role(r.rules()[2].conditions@[0], Permission::Read, "admin"@),
        allows_role(r.rules()[2].conditions@[1], Permission::Write, "admin"@),
{
    let mut rules = SecurityRules::new();
    rules.add_rule(
        RuleBuilder::new("/users/{userId}").allow_read_if(Expression::IsAuthenticated).allow_write_if(
            Expression::IsOwner(String::from_str("userId")),
        ).build(),
    );
    rules.add_rule(
        RuleBuilder::new("/public/{document=**}").public_read().allow_write_if(
            Expression::HasRole(String::from_str("admin")),
        ).build(),
    );
    rules.add_rule(
        RuleBuilder::new("/admin/{document=**}").allow_read_if(
            Expression::HasRole(String::from_str("admin")),
        ).allow_write_if(Expression::HasRole(String::from_str("admin"))).build(),
    );
    rules
}

} // verus!
