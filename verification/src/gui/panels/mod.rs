pub mod left_panel;
