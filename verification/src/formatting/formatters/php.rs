use vstd::prelude::*;
use crate::strings::{owned, owned_list, strs};
use crate::formatting::{step_view, FormatResult, FormatterError, Next, Step, SupportedLanguage, ToolReply};
use super::{
    format_with_tool, is_default_config, lookup, result_view, tool_formatting, version_report,
    SecureCommandExecutor,
};

verus! {

/// The php-cs-fixer configuration suggested for PHP projects.
pub const PHP_DEFAULT_CONFIG: &'static str = r#"<?php

$config = new PhpCsFixer\Config();
return $config
    ->setRules([
        '@PSR12' => true,
        '@PHP74Migration' => true,
        '@PhpCsFixer' => true,
        
        // Array formatting
        'array_syntax' => ['syntax' => 'short'],
        'array_indentation' => true,
        'trim_array_spaces' => true,
        'normalize_index_brace' => true,
        
        // Binary operators
        'binary_operator_spaces' => [
            'default' => 'single_space',
            'operators' => ['=>' => null]
        ],
        'concat_space' => ['spacing' => 'one'],
        
        // Braces
        'braces' => [
            'allow_single_line_closure' => true,
            'position_after_functions_and_oop_constructs' => 'next',
            'position_after_control_structures' => 'same',
            'position_after_anonymous_constructs' => 'same'
        ],
        
        // Casts
        'cast_spaces' => ['space' => 'single'],
        'lowercase_cast' => true,
        
        // Classes
        'class_attributes_separation' => [
            'elements' => [
                'const' => 'one',
                'method' => 'one',
                'property' => 'one'
            ]
        ],
        'class_definition' => [
            'single_line' => true,
            'single_item_single_line' => true
        ],
        'final_internal_class' => false,
        
        // Comments
        'comment_to_phpdoc' => true,
        'header_comment' => false,
        'multiline_comment_opening_closing' => true,
        'no_empty_comment' => true,
        
        // Control structures
        'elseif' => true,
        'no_break_comment' => true,
        'no_superfluous_elseif' => true,
        'no_unneeded_control_parentheses' => true,
        'no_useless_else' => true,
        'switch_case_semicolon_to_colon' => true,
        'switch_case_space' => true,
        
        // Doctrine annotations
        'doctrine_annotation_array_assignment' => true,
        'doctrine_annotation_braces' => true,
        'doctrine_annotation_indentation' => true,
        'doctrine_annotation_spaces' => true,
        
        // Function calls
        'function_declaration' => ['closure_function_spacing' => 'one'],
        'function_typehint_space' => true,
        'lambda_not_used_import' => true,
        'method_argument_space' => [
            'on_multiline' => 'ensure_fully_multiline'
        ],
        'no_spaces_after_function_name' => true,
        'no_unreachable_default_argument_value' => true,
        
        // Imports
        'global_namespace_import' => [
            'import_classes' => true,
            'import_constants' => true,
            'import_functions' => true
        ],
        'group_import' => true,
        'no_leading_import_slash' => true,
        'no_unused_imports' => true,
        'ordered_imports' => [
            'imports_order' => ['class', 'function', 'const'],
            'sort_algorithm' => 'alpha'
        ],
        'single_import_per_statement' => true,
        'single_line_after_imports' => true,
        
        // Language constructs
        'declare_equal_normalize' => true,
        'lowercase_keywords' => true,
        'magic_constant_casing' => true,
        'magic_method_casing' => true,
        'native_function_casing' => true,
        'no_alias_functions' => true,
        'no_alternative_syntax' => true,
        
        // Namespaces
        'blank_line_after_namespace' => true,
        'no_blank_lines_before_namespace' => true,
        'single_blank_line_before_namespace' => true,
        
        // Operators
        'increment_style' => ['style' => 'post'],
        'logical_operators' => true,
        'object_operator_without_whitespace' => true,
        'standardize_increment' => true,
        'standardize_not_equals' => true,
        'ternary_operator_spaces' => true,
        'unary_operator_spaces' => true,
        
        // PHPDoc
        'phpdoc_add_missing_param_annotation' => true,
        'phpdoc_align' => ['align' => 'vertical'],
        'phpdoc_annotation_without_dot' => true,
        'phpdoc_indent' => true,
        'phpdoc_inline_tag_normalizer' => true,
        'phpdoc_no_access' => true,
        'phpdoc_no_alias_tag' => true,
        'phpdoc_no_empty_return' => true,
        'phpdoc_no_package' => true,
        'phpdoc_no_useless_inheritdoc' => true,
        'phpdoc_order' => true,
        'phpdoc_return_self_reference' => true,
        'phpdoc_scalar' => true,
        'phpdoc_separation' => true,
        'phpdoc_single_line_var_spacing' => true,
        'phpdoc_summary' => true,
        'phpdoc_to_comment' => true,
        'phpdoc_trim' => true,
        'phpdoc_trim_consecutive_blank_line_separation' => true,
        'phpdoc_types' => true,
        'phpdoc_types_order' => ['null_adjustment' => 'always_last'],
        'phpdoc_var_annotation_correct_order' => true,
        'phpdoc_var_without_name' => true,
        
        // Semicolons
        'multiline_whitespace_before_semicolons' => ['strategy' => 'no_multi_line'],
        'no_empty_statement' => true,
        'no_singleline_whitespace_before_semicolons' => true,
        'semicolon_after_instruction' => true,
        'space_after_semicolon' => ['remove_in_empty_for_expressions' => true],
        
        // Strings
        'escape_implicit_backslashes' => true,
        'explicit_string_variable' => true,
        'heredoc_to_nowdoc' => true,
        'simple_to_complex_string_variable' => true,
        'single_quote' => true,
        
        // Whitespace
        'blank_line_before_statement' => [
            'statements' => ['break', 'continue', 'declare', 'return', 'throw', 'try']
        ],
        'compact_nullable_typehint' => true,
        'line_ending' => true,
        'no_extra_blank_lines' => [
            'tokens' => [
                'extra', 'throw', 'use', 'use_trait'
            ]
        ],
        'no_spaces_around_offset' => ['positions' => ['inside', 'outside']],
        'no_whitespace_in_blank_line' => true,
        'single_blank_line_at_eof' => true,
    ])
    ->setFinder(
        PhpCsFixer\Finder::create()
            ->exclude('vendor')
            ->exclude('storage')
            ->exclude('bootstrap/cache')
            ->in(__DIR__)
    )
    ->setUsingCache(false);
"#;

/// The arguments that php-cs-fixer gets for PHP code read from standard input.
pub open spec fn php_cs_fixer_args() -> Seq<Seq<char>> {
    seq!["fix"@, "--rules=@PER-CS3.0"@, "--using-cache=no"@, "--diff"@, "--allow-risky=yes"@, "-"@]
}

/// PHP formatter built on php-cs-fixer.
pub struct PhpFormatter {
    executor: SecureCommandExecutor,
}

impl PhpFormatter {
    /// The executor that runs php-cs-fixer.
    pub closed spec fn executor(self) -> SecureCommandExecutor {
        self.executor
    }

    pub fn new() -> (r: PhpFormatter)
        ensures
            is_default_config(r.executor().settings()),
    {
        PhpFormatter { executor: SecureCommandExecutor::default() }
    }

    /// The arguments php-cs-fixer runs with.
    pub fn get_php_cs_fixer_args(&self) -> (r: Vec<String>)
        ensures
            strs(r@) == php_cs_fixer_args(),
    {
        let items: [&str; 6] = ["fix", "--rules=@PER-CS3.0", "--using-cache=no", "--diff", "--allow-risky=yes", "-"];
        assert(items@.map_values(|x: &str| x@) =~= php_cs_fixer_args());
        owned_list(&items)
    }

    pub fn language(&self) -> (r: SupportedLanguage)
        ensures
            r == SupportedLanguage::Php,
    {
        SupportedLanguage::Php
    }

    /// Is php-cs-fixer allowed and installed? (The first reply answers.)
    pub fn is_available(&self, replies: &[ToolReply]) -> (r: Step<bool>)
        ensures
            step_view(r, |b: bool| b) == lookup(self.executor().settings(), "php-cs-fixer"@, replies@),
    {
        self.executor.command_exists("php-cs-fixer", replies)
    }

    /// Formats PHP code with php-cs-fixer: blank code is left alone; when
    /// php-cs-fixer is missing the code is left alone with a remark; else its
    /// output is the new code, and its failure leaves the code alone with
    /// the reason. The first reply answers the availability check, the
    /// second is the run.
    pub fn format_code(&self, code: &str, replies: &[ToolReply]) -> (r: Step<FormatResult>)
        ensures
            step_view(r, |x: FormatResult| result_view(x)) == tool_formatting(
                self.executor().settings(),
                code,
                lookup(self.executor().settings(), "php-cs-fixer"@, replies@),
                1,
                "php-cs-fixer"@,
                php_cs_fixer_args(),
                "php-cs-fixer formatter not available - skipping PHP formatting"@,
                "php-cs-fixer failed: "@,
                replies@,
            ),
    {
        let avail = self.is_available(replies);
        let args = self.get_php_cs_fixer_args();
        format_with_tool(
            &self.executor,
            code,
            avail,
            1,
            "php-cs-fixer",
            args.as_slice(),
            "php-cs-fixer formatter not available - skipping PHP formatting",
            "php-cs-fixer failed: ",
            replies,
        )
    }

    /// The version line of php-cs-fixer (see `get_formatter_version`).
    pub fn formatter_info(&self, replies: &[ToolReply]) -> (r: Step<String>)
        ensures
            step_view(r, |s: String| s@) == version_report(self.executor().settings(), "php-cs-fixer"@, replies@),
    {
        self.executor.get_formatter_version("php-cs-fixer", replies)
    }

    /// The suggested php-cs-fixer configuration.
    pub fn default_config(&self) -> (r: Result<String, FormatterError>)
        ensures
            r matches Ok(s) && s@ == PHP_DEFAULT_CONFIG@,
    {
        Ok(owned(PHP_DEFAULT_CONFIG))
    }
}

impl Default for PhpFormatter {
    fn default() -> (r: PhpFormatter)
        ensures
            is_default_config(r.executor().settings()),
    {
        PhpFormatter::new()
    }
}

} // verus!
