//! Query planning and execution over plain values.
pub mod alterations;
pub mod arrange;
pub mod call_errors;
pub mod cast;
pub mod catalog;
pub mod cells;
pub mod codes;
pub mod eval;
pub mod expr;
pub mod expression_laws;
pub mod facts;
pub mod filter_ranges;
pub mod folding;
pub mod frames;
pub mod grouping;
pub mod grouping_sets;
pub mod identifiers;
pub mod interval;
pub mod interval_laws;
pub mod join;
pub mod join_laws;
pub mod json_ops;
pub mod json_text;
pub mod literal_select;
pub mod literals;
pub mod lower;
pub mod meaning_laws;
pub mod names;
pub mod ordering;
pub mod output_laws;
pub mod output_names;
pub mod pattern;
pub mod pg_catalog;
pub mod plan_changes;
pub mod plan_conditions;
pub mod plan_from;
pub mod plan_items;
pub mod plan_merge;
pub mod plan_parts;
pub mod plan_query;
pub mod plan_statement;
pub mod plan_tables;
pub mod plan_types;
pub mod plan_views;
pub mod planning_laws;
pub mod planner;
pub mod projection;
pub mod recursion;
pub mod reference_laws;
pub mod referential;
pub mod render;
pub mod returning;
pub mod result_types;
pub mod rows;
pub mod scalar_ops;
pub mod select;
pub mod select_laws;
pub mod selection_laws;
pub mod sequences;
pub mod session_vars;
pub mod set_functions;
pub mod set_ops;
pub mod statement_laws;
pub mod storage_keys;
pub mod streaming;
pub mod subqueries;
pub mod syntax;
pub mod system_rows;
pub mod system_shapes;
pub mod system_types;
pub mod table_functions;
pub mod table_sources;
pub mod temporal;
pub mod text;
pub mod value;
pub mod value_laws;
pub mod values_list;
pub mod window;
pub mod window_laws;
