//! The directives of a content security policy, as the server sets them.
use vstd::prelude::*;

verus! {

/// The `Content-Security-Policy` directives, one number each.
pub struct CSP {
    // fetch directives
    pub child_src: u8,
    pub connect_src: u8,
    pub default_src: u8,
    pub fenced_frame_src: u8,
    pub font_src: u8,
    pub frame_src: u8,
    pub img_src: u8,
    pub manifest_src: u8,
    pub media_src: u8,
    pub object_src: u8,
    pub prefetch_src: u8,
    pub script_src: u8,
    pub script_src_elem: u8,
    pub script_src_attr: u8,
    pub style_src: u8,
    pub style_src_elem: u8,
    pub style_src_attr: u8,
    pub worker_src: u8,
    // document directives
    pub base_uri: u8,
    pub sandbox: u8,
    // navigation
    pub form_action: u8,
    pub frame_ancestors: u8,
    // reporting
    pub report_to: u8,
    // other
    pub require_trusted_types_for: u8,
    pub trusted_types: u8,
    pub upgrade_insecure_request: u8,
    // deprecated
    pub report_uri: u8,
    pub block_all_mixed_content: u8,
}

} // verus!
