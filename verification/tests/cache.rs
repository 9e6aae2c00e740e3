use std::path::PathBuf;

use oxc_tailwindcss::design_system::{CacheKey, LoadOptions};
use oxc_tailwindcss::loader::{configured_from_css, LoadError};

#[test]
fn cache_key_resolves_relative_entry_points() {
    let relative = CacheKey::new(&LoadOptions::new(PathBuf::from("/p")).with_entry_point(PathBuf::from("a.css")));
    let absolute = CacheKey::new(&LoadOptions::new(PathBuf::from("/p")).with_entry_point(PathBuf::from("/p/a.css")));
    assert_eq!(relative.cwd, PathBuf::from("/p"));
    assert_eq!(relative.entry_point, Some(PathBuf::from("/p/a.css")));
    assert_eq!(relative.entry_point, absolute.entry_point);

    let elsewhere = CacheKey::new(&LoadOptions::new(PathBuf::from("/p")).with_entry_point(PathBuf::from("/q/b.css")));
    assert_eq!(elsewhere.entry_point, Some(PathBuf::from("/q/b.css")));

    let none = CacheKey::new(&LoadOptions::new(PathBuf::from("/p")));
    assert_eq!(none.entry_point, None);
}

#[test]
fn stylesheets_with_javascript_modules_are_refused() {
    let memory = PathBuf::from("<memory>");
    match configured_from_css("@config \"./a.js\";\n@plugin \"b\";", 3, &memory) {
        Err(LoadError::JavaScriptModuleUnsupported { directive, path }) => {
            assert_eq!(directive, "@plugin");
            assert_eq!(path, memory);
        }
        _ => panic!("expected a refusal"),
    }
    match configured_from_css("/* @plugin \"b\"; */ @utility tab-4 { tab-size: 4; }", 3, &memory) {
        Ok(design) => {
            assert_eq!(design.generation, 3);
            assert!(design.dependencies.is_empty());
        }
        Err(_) => panic!("expected a design system"),
    }
}
