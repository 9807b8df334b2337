pub mod tui_worker_view;
