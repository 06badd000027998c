//! Parsing source text into a `SyntaxNode` tree with tree-sitter and the
//! Python, JavaScript and TypeScript grammars.
use vstd::prelude::*;
use crate::formatting::SupportedLanguage;
use crate::syntax::SyntaxNode;

verus! {

#[verifier::external_type_specification]
#[verifier::external_body]
pub struct ExTreeSitterNode<'tree>(tree_sitter::Node<'tree>);

/// Copies a tree-sitter node and its subtree into a `SyntaxNode`: the
/// node's `kind`, `is_named`, `utf8_text` of `source`, byte range, start and
/// end rows, and its children in order. Nothing is claimed of the copy; the
/// parse functions name the whole result.
#[verifier::external_body]
fn syntax_node_of(node: tree_sitter::Node, source: &[u8]) -> SyntaxNode {
    let mut cursor = node.walk();
    SyntaxNode {
        kind: node.kind().to_string(),
        named: node.is_named(),
        text: node.utf8_text(source).ok().map(|t| t.to_string()),
        start_byte: node.start_byte(),
        end_byte: node.end_byte(),
        start_row: node.start_position().row,
        end_row: node.end_position().row,
        children: node.children(&mut cursor).map(|c| syntax_node_of(c, source)).collect(),
    }
}

/// What tree-sitter's Python grammar gives for a text (`None` when the
/// parser gives no tree).
pub uninterp spec fn python_tree(content: Seq<char>) -> Option<SyntaxNode>;

/// What tree-sitter's JavaScript grammar gives for a text.
pub uninterp spec fn javascript_tree(content: Seq<char>) -> Option<SyntaxNode>;

/// What tree-sitter's TypeScript grammar gives for a text.
pub uninterp spec fn typescript_tree(content: Seq<char>) -> Option<SyntaxNode>;

/// Parses `content` with `tree_sitter::Parser` set to
/// `tree_sitter_python::LANGUAGE` and copies the root node. The tree is
/// named, not spelled out.
#[verifier::external_body]
fn parse_python(content: &str) -> (r: Option<SyntaxNode>)
    ensures
        r == python_tree(content@),
{
    let mut parser = tree_sitter::Parser::new();
    parser.set_language(&tree_sitter_python::LANGUAGE.into()).ok()?;
    let tree = parser.parse(content, None)?;
    Some(syntax_node_of(tree.root_node(), content.as_bytes()))
}

/// Parses `content` with `tree_sitter::Parser` set to
/// `tree_sitter_javascript::LANGUAGE` and copies the root node.
#[verifier::external_body]
fn parse_javascript(content: &str) -> (r: Option<SyntaxNode>)
    ensures
        r == javascript_tree(content@),
{
    let mut parser = tree_sitter::Parser::new();
    parser.set_language(&tree_sitter_javascript::LANGUAGE.into()).ok()?;
    let tree = parser.parse(content, None)?;
    Some(syntax_node_of(tree.root_node(), content.as_bytes()))
}

/// Parses `content` with `tree_sitter::Parser` set to
/// `tree_sitter_typescript::LANGUAGE_TYPESCRIPT` and copies the root node.
#[verifier::external_body]
fn parse_typescript(content: &str) -> (r: Option<SyntaxNode>)
    ensures
        r == typescript_tree(content@),
{
    let mut parser = tree_sitter::Parser::new();
    parser.set_language(&tree_sitter_typescript::LANGUAGE_TYPESCRIPT.into()).ok()?;
    let tree = parser.parse(content, None)?;
    Some(syntax_node_of(tree.root_node(), content.as_bytes()))
}

/// The syntax tree of a text in a language: the grammar's tree for Python,
/// JavaScript and TypeScript, none for the languages without a grammar here.
pub open spec fn syntax_tree(language: SupportedLanguage, content: Seq<char>) -> Option<SyntaxNode> {
    match language {
        SupportedLanguage::Python => python_tree(content),
        SupportedLanguage::JavaScript => javascript_tree(content),
        SupportedLanguage::TypeScript => typescript_tree(content),
        _ => None,
    }
}

/// Parses a text with the grammar of its language (see `syntax_tree`).
pub fn parse_source(language: SupportedLanguage, content: &str) -> (r: Option<SyntaxNode>)
    ensures
        r == syntax_tree(language, content@),
{
    match language {
        SupportedLanguage::Python => parse_python(content),
        SupportedLanguage::JavaScript => parse_javascript(content),
        SupportedLanguage::TypeScript => parse_typescript(content),
        _ => None,
    }
}

} // verus!
