//! Session state for a terminal client of a task tracker: the pane layout,
//! the project list, the date picker, completion over closed sets, the Gantt
//! view and the filter rules, each as a verified state machine, and the
//! session that routes keys and actions between them.

pub mod date;
pub mod date_query;
pub mod calendar;
pub mod autocomplete;
pub mod gantt;
pub mod pane;
pub mod text;
pub mod text_edit;
pub mod order;
pub mod matching;
pub mod error;
pub mod input;
pub mod project_list;
pub mod task_edit;
pub mod task;
pub mod filter;
pub mod filter_edit;
pub mod filter_panel;
pub mod filter_rows;
pub mod app;
pub mod records;
pub mod table;
pub mod cell_open;
pub mod task_table;
pub mod dataset;
