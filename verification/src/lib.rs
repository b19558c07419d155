pub mod guidance;
pub mod items;
pub mod nav;
pub mod procedure_geometry;
pub mod procedure_legs;
pub mod route;
pub mod row_actions;
pub mod rows;
pub mod sequencing;
pub mod text;
pub mod attachment;
pub mod bundle_map;
pub mod display_rows;
pub mod flight_plan;
pub mod publication;
pub mod rebuild;
pub mod projection;
pub mod component_views;
pub mod route_edits;
pub mod row_guidance;
pub mod direct_to;
pub mod guidance_restore;
pub mod plan_rebuild;
pub mod plan_edits;
pub mod ui_state;
pub mod playback;
