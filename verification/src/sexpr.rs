//! The S-expression reader for the IR description language.
//!
//! A [`Node`] is the tree the IR description language is written in: words,
//! atoms (words led by `:`), string literals, integers, and parenthesized
//! lists.  The reader handles ASCII text, integer numbers and `;` line
//! comments; string literals carry no escape sequences.
//!
//! On top of the reader stands the `def` rule mechanism: a top-level node
//! `(def RULE GENERATE)` declares a rewrite rule, and every later top-level
//! node has each declared rule applied to it, in declaration order,
//! replacing every subtree equal to `RULE` by `GENERATE`.

use vstd::prelude::*;

use vstd::string::StringSliceAdditionalSpecFns;

verus! {

/// One node of an S-expression tree.
#[derive(Debug)]
pub enum Node {
    /// A bare word: `hello`.
    Word(String),
    /// A word led by `:`, with the `:` stripped: `:6.1.7.2`.
    Atom(String),
    /// A string literal, without its quotes.
    Text(String),
    /// An integer literal.
    Integer(i64),
    /// A parenthesized list of children.
    Parent(Vec<Node>),
}

/// Structural equality of two nodes, comparing strings by contents.
pub open spec fn node_like(a: Node, b: Node) -> bool
    decreases a,
{
    match (a, b) {
        (Node::Word(x), Node::Word(y)) => x@ == y@,
        (Node::Atom(x), Node::Atom(y)) => x@ == y@,
        (Node::Text(x), Node::Text(y)) => x@ == y@,
        (Node::Integer(x), Node::Integer(y)) => x == y,
        (Node::Parent(xs), Node::Parent(ys)) => xs@.len() == ys@.len() && (forall|i: int|
            0 <= i < xs@.len() ==> node_like(#[trigger] xs@[i], ys@[i])),
        _ => false,
    }
}

/// Decides structural equality of two nodes.
pub fn node_eq(a: &Node, b: &Node) -> (r: bool)
    ensures
        r == node_like(*a, *b),
    decreases *a,
{
    match (a, b) {
        (Node::Word(x), Node::Word(y)) => x.eq(y),
        (Node::Atom(x), Node::Atom(y)) => x.eq(y),
        (Node::Text(x), Node::Text(y)) => x.eq(y),
        (Node::Integer(x), Node::Integer(y)) => x == y,
        (Node::Parent(xs), Node::Parent(ys)) => {
            if xs.len() != ys.len() {
                return false;
            }
            let n = xs.len();
            let mut i: usize = 0;
            while i < n
                invariant
                    0 <= i <= n,
                    n == xs@.len() && n == ys@.len(),
                    a == Node::Parent(*xs) && b == Node::Parent(*ys),
                    forall|j: int| 0 <= j < i ==> node_like(#[trigger] xs@[j], ys@[j]),
                decreases n - i,
            {
                proof {
                    assert(decreases_to!(*a => (*a)->Parent_0));
                    assert(decreases_to!((*a)->Parent_0 => (*a)->Parent_0@));
                    assert(decreases_to!((*a)->Parent_0@ => (*a)->Parent_0@[i as int]));
                    assert(decreases_to!(*a => xs@[i as int]));
                }
                if !node_eq(&xs[i], &ys[i]) {
                    return false;
                }
                i = i + 1;
            }
            true
        },
        _ => false,
    }
}

/// A structural copy of a node.
pub fn node_copy(n: &Node) -> (r: Node)
    ensures
        node_like(r, *n),
    decreases *n,
{
    match n {
        Node::Word(x) => Node::Word(x.clone()),
        Node::Atom(x) => Node::Atom(x.clone()),
        Node::Text(x) => Node::Text(x.clone()),
        Node::Integer(x) => Node::Integer(*x),
        Node::Parent(xs) => {
            let m = xs.len();
            let mut out: Vec<Node> = Vec::new();
            let mut i: usize = 0;
            while i < m
                invariant
                    0 <= i <= m,
                    m == xs@.len(),
                    n == Node::Parent(*xs),
                    out@.len() == i,
                    forall|j: int| 0 <= j < i ==> node_like(#[trigger] out@[j], xs@[j]),
                decreases m - i,
            {
                proof {
                    assert(decreases_to!(*n => (*n)->Parent_0));
                    assert(decreases_to!((*n)->Parent_0 => (*n)->Parent_0@));
                    assert(decreases_to!((*n)->Parent_0@ => (*n)->Parent_0@[i as int]));
                    assert(decreases_to!(*n => xs@[i as int]));
                }
                out.push(node_copy(&xs[i]));
                i = i + 1;
            }
            let r = Node::Parent(out);
            proof {
                assert(node_like(r, *n));
            }
            r
        },
    }
}

/// The relation between a node and the result of applying one rewrite rule
/// to it: a subtree equal to `rule` becomes `generate`; any other subtree is
/// rewritten in its children and otherwise kept.
pub open spec fn rule_applied(rule: Node, generate: Node, n: Node, out: Node) -> bool
    decreases n,
{
    if node_like(n, rule) {
        node_like(out, generate)
    } else {
        match n {
            Node::Parent(cs) => out matches Node::Parent(os) && os@.len() == cs@.len() && (forall|
                i: int,
            |
                0 <= i < cs@.len() ==> rule_applied(rule, generate, #[trigger] cs@[i], os@[i])),
            _ => node_like(out, n),
        }
    }
}

/// Applies one rewrite rule everywhere in a node, outside-in: a node equal
/// to the rule becomes the replacement; otherwise its children are rewritten.
#[verifier::loop_isolation(false)]
pub fn apply_rule_recursively(rule: &Node, generate: &Node, node: Node) -> (r: Node)
    ensures
        rule_applied(*rule, *generate, node, r),
    decreases node,
{
    let ghost n0 = node;
    if node_eq(&node, rule) {
        return node_copy(generate);
    }
    match node {
        Node::Parent(cs) => {
            let ghost cs0 = cs@;
            let mut rest = cs;
            let mut out: Vec<Node> = Vec::new();
            proof {
                assert(cs0.skip(0) =~= cs0);
            }
            while rest.len() > 0
                invariant
                    out@.len() + rest@.len() == cs0.len(),
                    rest@ == cs0.skip(out@.len() as int),
                    n0 matches Node::Parent(v) && v@ == cs0,
                    forall|j: int|
                        0 <= j < out@.len() ==> rule_applied(
                            *rule,
                            *generate,
                            #[trigger] cs0[j],
                            out@[j],
                        ),
                decreases rest@.len(),
            {
                let ghost done = out@.len() as int;
                let child = rest.remove(0);
                proof {
                    assert(child == cs0[done]);
                    assert(rest@ =~= cs0.skip(done + 1));
                    assert(decreases_to!(n0 => n0->Parent_0));
                    assert(decreases_to!(n0->Parent_0 => n0->Parent_0@));
                    assert(decreases_to!(n0->Parent_0@ => n0->Parent_0@[done]));
                    assert(decreases_to!(n0 => child));
                }
                out.push(apply_rule_recursively(rule, generate, child));
            }
            let r = Node::Parent(out);
            proof {
                assert(rule_applied(*rule, *generate, n0, r));
            }
            r
        },
        other => other,
    }
}

/// `node_like` is reflexive: every node equals itself structurally.
pub proof fn lemma_node_like_refl(n: Node)
    ensures
        node_like(n, n),
    decreases n,
{
    match n {
        Node::Parent(cs) => {
            assert forall|i: int| 0 <= i < cs@.len() implies node_like(
                #[trigger] cs@[i],
                cs@[i],
            ) by {
                assert(decreases_to!(n => n->Parent_0));
                assert(decreases_to!(n->Parent_0 => n->Parent_0@));
                assert(decreases_to!(n->Parent_0@ => n->Parent_0@[i]));
                lemma_node_like_refl(cs@[i]);
            }
        },
        _ => {},
    }
}

/// Errors of the S-expression reader and the rule mechanism.
#[derive(Debug, Clone, Copy, PartialEq, Eq, Structural)]
pub enum SexprError {
    /// The input holds a byte outside ASCII.
    NonAscii,
    /// A closing parenthesis with no open one.
    UnexpectedClose,
    /// The input ended with an unclosed parenthesis.
    UnclosedParen,
    /// The input ended inside a string literal.
    UnclosedString,
    /// A token that starts like a number but is not a plain integer.
    UnsupportedNumber,
    /// An integer literal outside the 64-bit range.
    IntegerOverflow,
    /// A `def` form that does not carry exactly a rule and a replacement.
    MalformedDef,
}

const BYTE_SPACE: u8 = 32;

const BYTE_TAB: u8 = 9;

const BYTE_NEWLINE: u8 = 10;

const BYTE_RETURN: u8 = 13;

const BYTE_OPEN: u8 = 40;

const BYTE_CLOSE: u8 = 41;

const BYTE_QUOTE: u8 = 34;

const BYTE_SEMICOLON: u8 = 59;

const BYTE_COLON: u8 = 58;

const BYTE_MINUS: u8 = 45;

const BYTE_ZERO: u8 = 48;

const BYTE_NINE: u8 = 57;

/// Whether a byte ends a token.
fn is_delim(b: u8) -> (r: bool)
    ensures
        r == (b == BYTE_SPACE || b == BYTE_TAB || b == BYTE_NEWLINE || b == BYTE_RETURN || b
            == BYTE_OPEN || b == BYTE_CLOSE || b == BYTE_QUOTE || b == BYTE_SEMICOLON),
{
    b == BYTE_SPACE || b == BYTE_TAB || b == BYTE_NEWLINE || b == BYTE_RETURN || b == BYTE_OPEN
        || b == BYTE_CLOSE || b == BYTE_QUOTE || b == BYTE_SEMICOLON
}

/// Reads S-expression source text into its top-level nodes.
///
/// The reader accepts ASCII text: words, `:`-led atoms, quoted strings
/// without escape sequences, decimal integers with an optional leading `-`,
/// parenthesized lists, and `;` comments running to the end of the line.
#[verifier::loop_isolation(false)]
pub fn parse_to_nodes(code: &str) -> (r: Result<Vec<Node>, SexprError>)
    ensures
        (r == Err::<Vec<Node>, SexprError>(SexprError::NonAscii)) == !vstd::string::is_ascii(
            code,
        ),
        code@.len() == 0 && vstd::string::is_ascii(code) ==> (r matches Ok(ns) && ns@.len()
            == 0),
{
    broadcast use vstd::string::is_ascii_spec_bytes;

    if !code.is_ascii() {
        return Err(SexprError::NonAscii);
    }
    let bytes = code.as_bytes();
    let n = bytes.len();
    proof {
        assert(n == code@.len());
    }
    let mut stack: Vec<Vec<Node>> = Vec::new();
    let mut cur: Vec<Node> = Vec::new();
    let mut i: usize = 0;
    while i < n
        invariant
            0 <= i <= n,
            n == bytes@.len(),
            n == code@.len(),
            vstd::string::is_ascii(code),
            bytes@ == code.spec_bytes(),
            n == 0 ==> stack@.len() == 0 && cur@.len() == 0,
        decreases n - i,
    {
        let b = bytes[i];
        if b == BYTE_SPACE || b == BYTE_TAB || b == BYTE_NEWLINE || b == BYTE_RETURN {
            i = i + 1;
        } else if b == BYTE_SEMICOLON {
            i = i + 1;
            let ghost comment_start = i as int;
            while i < n && bytes[i] != BYTE_NEWLINE
                invariant
                    comment_start <= i <= n,
                    n == bytes@.len(),
                decreases n - i,
            {
                i = i + 1;
            }
        } else if b == BYTE_OPEN {
            stack.push(cur);
            cur = Vec::new();
            i = i + 1;
        } else if b == BYTE_CLOSE {
            match stack.pop() {
                None => {
                    return Err(SexprError::UnexpectedClose);
                },
                Some(mut parent) => {
                    parent.push(Node::Parent(cur));
                    cur = parent;
                },
            }
            i = i + 1;
        } else if b == BYTE_QUOTE {
            let mut j = i + 1;
            while j < n && bytes[j] != BYTE_QUOTE
                invariant
                    i + 1 <= j <= n,
                    n == bytes@.len(),
                decreases n - j,
            {
                j = j + 1;
            }
            if j >= n {
                return Err(SexprError::UnclosedString);
            }
            let text = vstd::string::StrSliceExecFns::substring_ascii(code, i + 1, j).to_owned();
            cur.push(Node::Text(text));
            i = j + 1;
        } else {
            let mut j = i;
            while j < n && !is_delim(bytes[j])
                invariant
                    i <= j <= n,
                    n == bytes@.len(),
                decreases n - j,
            {
                j = j + 1;
            }
            if b == BYTE_COLON {
                let word = vstd::string::StrSliceExecFns::substring_ascii(
                    code,
                    i + 1,
                    j,
                ).to_owned();
                cur.push(Node::Atom(word));
            } else if (b >= BYTE_ZERO && b <= BYTE_NINE) || (b == BYTE_MINUS && j > i + 1) {
                let negative = b == BYTE_MINUS;
                let mut k = if negative {
                    i + 1
                } else {
                    i
                };
                let mut value: i64 = 0;
                while k < j
                    invariant
                        i <= k <= j <= n,
                        n == bytes@.len(),
                        0 <= value,
                    decreases j - k,
                {
                    let d = bytes[k];
                    if d < BYTE_ZERO || d > BYTE_NINE {
                        return Err(SexprError::UnsupportedNumber);
                    }
                    let dv = (d - BYTE_ZERO) as i64;
                    if value > (i64::MAX - dv) / 10 {
                        return Err(SexprError::IntegerOverflow);
                    }
                    proof {
                        assert(value * 10 + dv <= i64::MAX) by (nonlinear_arith)
                            requires
                                0 <= value,
                                value <= (i64::MAX - dv) / 10,
                                0 <= dv <= 9,
                        ;
                    }
                    value = value * 10 + dv;
                    k = k + 1;
                }
                let number = if negative {
                    -value
                } else {
                    value
                };
                cur.push(Node::Integer(number));
            } else {
                let word = vstd::string::StrSliceExecFns::substring_ascii(code, i, j).to_owned();
                cur.push(Node::Word(word));
            }
            // a token holds at least one byte; the guard keeps the
            // progress of the scan evident
            i = if j > i {
                j
            } else {
                i + 1
            };
        }
    }
    if stack.len() > 0 {
        return Err(SexprError::UnclosedParen);
    }
    Ok(cur)
}

/// Whether a top-level node declares a rewrite rule: a list whose head is
/// the word `def`.
pub open spec fn is_def(n: Node) -> bool {
    &&& n matches Node::Parent(cs)
    &&& cs@.len() >= 1
    &&& cs@[0] matches Node::Word(w)
    &&& w@ == "def"@
}

/// A rule declaration must carry exactly the head, a rule and a replacement.
pub open spec fn def_ok(n: Node) -> bool {
    is_def(n) ==> (n matches Node::Parent(cs) && cs@.len() == 3)
}

/// Every rule declaration among the nodes is well-formed.
pub open spec fn defs_wf(nodes: Seq<Node>) -> bool {
    forall|i: int| 0 <= i < nodes.len() ==> def_ok(#[trigger] nodes[i])
}

/// `out` is `n` with the rules applied in declaration order.
pub open spec fn all_rules_applied(rules: Seq<(Node, Node)>, n: Node, out: Node) -> bool
    decreases rules.len(),
{
    if rules.len() == 0 {
        node_like(out, n)
    } else {
        exists|mid: Node|
            all_rules_applied(rules.drop_last(), n, mid) && #[trigger] rule_applied(
                rules.last().0,
                rules.last().1,
                mid,
                out,
            )
    }
}

/// The whole rule pass: rule declarations are collected in order and
/// removed; every other top-level node has the rules declared before it
/// applied to it, in declaration order.
pub open spec fn rule_app(nodes: Seq<Node>, rules: Seq<(Node, Node)>, out: Seq<Node>) -> bool
    decreases nodes.len(),
{
    if nodes.len() == 0 {
        out.len() == 0
    } else if is_def(nodes[0]) {
        nodes[0] matches Node::Parent(cs) && cs@.len() == 3 && rule_app(
            nodes.drop_first(),
            rules.push((cs@[1], cs@[2])),
            out,
        )
    } else {
        out.len() >= 1 && all_rules_applied(rules, nodes[0], out[0]) && rule_app(
            nodes.drop_first(),
            rules,
            out.drop_first(),
        )
    }
}

/// Decides whether a node declares a rewrite rule.
fn is_def_node(n: &Node) -> (r: bool)
    ensures
        r == is_def(*n),
{
    match n {
        Node::Parent(children) => {
            if children.len() >= 1 {
                match &children[0] {
                    Node::Word(w) => {
                        let d: String = "def".to_owned();
                        w.eq(&d)
                    },
                    _ => false,
                }
            } else {
                false
            }
        },
        _ => false,
    }
}

/// Appending one more applied rule extends the chain.
proof fn lemma_all_rules_snoc(rules: Seq<(Node, Node)>, n: Node, mid: Node, out: Node)
    requires
        rules.len() >= 1,
        all_rules_applied(rules.drop_last(), n, mid),
        rule_applied(rules.last().0, rules.last().1, mid, out),
    ensures
        all_rules_applied(rules, n, out),
{
    assert(all_rules_applied(rules.drop_last(), n, mid) && rule_applied(
        rules.last().0,
        rules.last().1,
        mid,
        out,
    ));
}

/// Applies every declared rule to one node, in declaration order.
#[verifier::loop_isolation(false)]
fn apply_all_rules(rules: &Vec<(Node, Node)>, node: Node) -> (r: Node)
    ensures
        all_rules_applied(rules@, node, r),
{
    let ghost item0 = node;
    let mut cur = node;
    let nrules = rules.len();
    let mut k: usize = 0;
    proof {
        assert(rules@.take(0) =~= Seq::<(Node, Node)>::empty());
        lemma_node_like_refl(item0);
    }
    while k < nrules
        invariant
            0 <= k <= nrules,
            all_rules_applied(rules@.take(k as int), item0, cur),
        decreases nrules - k,
    {
        let ghost mid0 = cur;
        let next = apply_rule_recursively(&rules[k].0, &rules[k].1, cur);
        proof {
            let full = rules@.take(k + 1);
            assert(full.drop_last() =~= rules@.take(k as int));
            assert(full.last() == rules@[k as int]);
            lemma_all_rules_snoc(full, item0, mid0, next);
        }
        cur = next;
        k = k + 1;
    }
    proof {
        assert(rules@.take(nrules as int) =~= rules@);
    }
    cur
}

/// Runs the rule pass over the top-level nodes: each `(def RULE GENERATE)`
/// declares a rule and is dropped; every later node has the rules declared
/// before it applied, in order.  A malformed `def` is a fatal error.
#[verifier::loop_isolation(false)]
#[verifier::rlimit(100)]
pub fn parse_with_rule_application(nodes: Vec<Node>) -> (r: Result<Vec<Node>, SexprError>)
    ensures
        defs_wf(nodes@) ==> (r matches Ok(out) && rule_app(nodes@, Seq::empty(), out@)),
        !defs_wf(nodes@) ==> r is Err,
{
    let mut new_nodes: Vec<Node> = Vec::new();
    let mut custom_rules: Vec<(Node, Node)> = Vec::new();
    let mut rest = nodes;
    let ghost nodes0 = rest@;
    proof {
        assert(nodes0.skip(0) =~= nodes0);
    }
    while rest.len() > 0
        invariant
            rest@.len() <= nodes0.len(),
            rest@ == nodes0.skip(nodes0.len() - rest@.len()),
            forall|j: int| 0 <= j < nodes0.len() - rest@.len() ==> def_ok(#[trigger] nodes0[j]),
            forall|ro: Seq<Node>|
                #[trigger] rule_app(rest@, custom_rules@, ro) ==> rule_app(
                    nodes0,
                    Seq::empty(),
                    new_nodes@ + ro,
                ),
        decreases rest@.len(),
    {
        let ghost done = nodes0.len() - rest@.len();
        let ghost rest_pre = rest@;
        let ghost rules_pre = custom_rules@;
        let ghost out_pre = new_nodes@;
        let node = rest.remove(0);
        proof {
            assert(rest_pre =~= nodes0.skip(done));
            assert(rest_pre[0] == nodes0.skip(done)[0]);
            assert(nodes0.skip(done)[0] == nodes0[done]);
            assert(node == nodes0[done]);
            assert(rest@ =~= nodes0.skip(done).drop_first());
            assert(nodes0.skip(done).drop_first() =~= nodes0.skip(done + 1));
        }
        if is_def_node(&node) {
            match node {
                Node::Parent(mut children) => {
                    if children.len() != 3 {
                        proof {
                            assert(!def_ok(nodes0[done]));
                        }
                        return Err(SexprError::MalformedDef);
                    }
                    let ghost cs0 = children@;
                    proof {
                        assert(is_def(nodes0[done]));
                        assert(nodes0[done] matches Node::Parent(cc) && cc@ == cs0 && cs0.len()
                            == 3);
                    }
                    let _head = children.remove(0);
                    let rule = children.remove(0);
                    let generate = children.remove(0);
                    proof {
                        assert(rule == cs0[1] && generate == cs0[2]);
                    }
                    custom_rules.push((rule, generate));
                    proof {
                        assert forall|ro: Seq<Node>| #[trigger]
                            rule_app(rest@, custom_rules@, ro) implies rule_app(
                            nodes0,
                            Seq::empty(),
                            new_nodes@ + ro,
                        ) by {
                            assert(custom_rules@ =~= rules_pre.push((cs0[1], cs0[2])));
                            assert(rest_pre.drop_first() =~= rest@);
                            assert(rest_pre[0] == nodes0[done]);
                            assert(rule_app(rest_pre, rules_pre, ro));
                        }
                    }
                },
                _ => {
                    proof {
                        assert(false);
                    }
                },
            }
        } else {
            let ghost item0 = node;
            let cur = apply_all_rules(&custom_rules, node);
            new_nodes.push(cur);
            proof {
                assert forall|ro: Seq<Node>| #[trigger]
                    rule_app(rest@, custom_rules@, ro) implies rule_app(
                    nodes0,
                    Seq::empty(),
                    new_nodes@ + ro,
                ) by {
                    let full = seq![new_nodes@.last()] + ro;
                    assert(full[0] == new_nodes@.last());
                    assert(full.drop_first() =~= ro);
                    assert(rule_app(rest_pre, custom_rules@, full));
                    assert(out_pre + full =~= new_nodes@ + ro);
                }
            }
        }
    }
    proof {
        assert(rest@ =~= Seq::<Node>::empty());
        assert(rule_app(rest@, custom_rules@, Seq::<Node>::empty()));
        assert(new_nodes@ + Seq::<Node>::empty() =~= new_nodes@);
        assert(nodes0.skip(nodes0.len() - 0) =~= Seq::<Node>::empty());
    }
    Ok(new_nodes)
}

} // verus!
