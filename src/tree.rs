use crate::text::{chars_of, concat_chars, string_of};
use vstd::prelude::*;

verus! {

/// A node of the directory tree of processed files: a path component, the tokens below
/// it, and its children.
pub struct TreeNode {
    pub path: String,
    pub tokens: usize,
    pub children: Vec<TreeNode>,
}

impl TreeNode {
    /// A node without tokens or children.
    pub fn new(path: String) -> (r: Self)
        ensures
            r.path@ == path@,
            r.tokens == 0,
            r.children@.len() == 0,
    {
        TreeNode { path, tokens: 0, children: Vec::new() }
    }

    /// Appends `child`, adding its tokens to this node's.
    pub fn add_child(&mut self, child: TreeNode)
        requires
            old(self).tokens + child.tokens <= usize::MAX,
        ensures
            final(self).path == old(self).path,
            final(self).tokens == old(self).tokens + child.tokens,
            final(self).children@ == old(self).children@.push(child),
    {
        self.tokens = self.tokens + child.tokens;
        self.children.push(child);
    }
}

/// The decimal digit for `d < 10`.
pub open spec fn digit(d: nat) -> char {
    ((d + 48) as u8) as char
}

/// `n` in decimal, without leading zeros.
pub open spec fn decimal(n: nat) -> Seq<char>
    decreases n,
{
    if n < 10 {
        seq![digit(n)]
    } else {
        decimal(n / 10).push(digit(n % 10))
    }
}

/// `n` in decimal.
pub fn decimal_chars(n: usize) -> (r: Vec<char>)
    ensures
        r@ == decimal(n as nat),
    decreases n,
{
    let d = ((n % 10) as u8 + 48) as char;
    if n < 10 {
        vec![d]
    } else {
        let mut v = decimal_chars(n / 10);
        v.push(d);
        v
    }
}

/// The branch marker before a node's name.
pub open spec fn marker(is_last: bool) -> Seq<char> {
    if is_last {
        seq!['└', '─', '─', ' ']
    } else {
        seq!['├', '─', '─', ' ']
    }
}

/// The line for a node: nothing for the unnamed root, else indent, marker, name and
/// token count.
pub open spec fn node_line(t: TreeNode, indent: Seq<char>, is_last: bool) -> Seq<char> {
    if t.path@.len() == 0 {
        seq![]
    } else {
        indent + marker(is_last) + t.path@ + seq![' ', '('] + decimal(t.tokens as nat) + seq![
            ' ',
            't',
            'o',
            'k',
            'e',
            'n',
            's',
            ')',
            '\n',
        ]
    }
}

/// The indent for a node's children.
pub open spec fn child_indent(t: TreeNode, indent: Seq<char>, is_last: bool) -> Seq<char> {
    if t.path@.len() == 0 {
        indent
    } else if is_last {
        indent + seq![' ', ' ', ' ', ' ']
    } else {
        indent + seq!['│', ' ', ' ', ' ']
    }
}

/// The rendering of a subtree: its line, then each child's subtree, the last child
/// marked as last.
pub open spec fn tree_text(t: TreeNode, indent: Seq<char>, is_last: bool) -> Seq<char>
    decreases t, 0nat,
{
    node_line(t, indent, is_last) + children_text(
        t.children@,
        child_indent(t, indent, is_last),
        t.children@.len() as int,
    )
}

/// The renderings of the first `n` of the children `cs`.
pub open spec fn children_text(cs: Seq<TreeNode>, indent: Seq<char>, n: int) -> Seq<char>
    decreases cs, n + 1,
{
    if n <= 0 || n > cs.len() {
        seq![]
    } else {
        children_text(cs, indent, n - 1) + tree_text(cs[n - 1], indent, n - 1 == cs.len() - 1)
    }
}

fn render(tree: &TreeNode, indent: &Vec<char>, is_last: bool) -> (r: Vec<char>)
    ensures
        r@ == tree_text(*tree, indent@, is_last),
    decreases tree,
{
    let mut out: Vec<char> = Vec::new();
    if tree.path.as_str().unicode_len() > 0 {
        let mark: Vec<char> = if is_last {
            vec!['└', '─', '─', ' ']
        } else {
            vec!['├', '─', '─', ' ']
        };
        let open: Vec<char> = vec![' ', '('];
        let close: Vec<char> = vec![' ', 't', 'o', 'k', 'e', 'n', 's', ')', '\n'];
        out = concat_chars(indent, &mark);
        out = concat_chars(&out, &chars_of(tree.path.as_str()));
        out = concat_chars(&out, &open);
        out = concat_chars(&out, &decimal_chars(tree.tokens));
        out = concat_chars(&out, &close);
        assert(mark@ =~= marker(is_last));
        assert(open@ =~= seq![' ', '(']);
        assert(close@ =~= seq![' ', 't', 'o', 'k', 'e', 'n', 's', ')', '\n']);
    }
    assert(out@ == node_line(*tree, indent@, is_last));
    let ci: Vec<char> = if tree.path.as_str().unicode_len() == 0 {
        indent.clone()
    } else if is_last {
        let pad: Vec<char> = vec![' ', ' ', ' ', ' '];
        assert(pad@ =~= seq![' ', ' ', ' ', ' ']);
        concat_chars(indent, &pad)
    } else {
        let pad: Vec<char> = vec!['│', ' ', ' ', ' '];
        assert(pad@ =~= seq!['│', ' ', ' ', ' ']);
        concat_chars(indent, &pad)
    };
    assert(ci@ == child_indent(*tree, indent@, is_last));
    let ghost head = out@;
    let n = tree.children.len();
    let mut i: usize = 0;
    while i < n
        invariant
            i <= n,
            n == tree.children@.len(),
            out@ == head + children_text(tree.children@, ci@, i as int),
        decreases n - i,
    {
        proof {
            vstd::std_specs::vec::axiom_vec_index_decreases(tree.children, i as int);
        }
        let sub = render(&tree.children[i], &ci, i == n - 1);
        out = concat_chars(&out, &sub);
        i = i + 1;
    }
    out
}

/// The tree drawn with box characters, one line per named node with its token count;
/// the unnamed root draws no line of its own.
pub fn format_tree(tree: &TreeNode, indent: &str, is_last: bool) -> (r: String)
    ensures
        r@ == tree_text(*tree, indent@, is_last),
{
    string_of(&render(tree, &chars_of(indent), is_last))
}

} // verus!
