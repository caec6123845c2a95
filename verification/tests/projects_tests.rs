use tasksync::projects::{
    framework_from_dependencies, framework_from_layout, is_music_extension,
    language_for_extension,
};

#[test]
fn dependency_probes_follow_the_fixed_order() {
    assert_eq!(
        framework_from_dependencies(true, true, true, true).as_deref(),
        Some("Next.js")
    );
    assert_eq!(
        framework_from_dependencies(false, true, true, false).as_deref(),
        Some("Vue")
    );
    assert_eq!(
        framework_from_dependencies(false, false, true, true).as_deref(),
        Some("React")
    );
    assert_eq!(
        framework_from_dependencies(false, false, false, true).as_deref(),
        Some("Svelte")
    );
    assert_eq!(framework_from_dependencies(false, false, false, false), None);
}

#[test]
fn layout_names_the_project_kind() {
    assert_eq!(framework_from_layout(true, true).as_deref(), Some("Full Stack"));
    assert_eq!(framework_from_layout(true, false).as_deref(), Some("Frontend"));
    assert_eq!(framework_from_layout(false, true).as_deref(), Some("Backend"));
    assert_eq!(framework_from_layout(false, false), None);
}

#[test]
fn extensions_map_to_their_languages() {
    assert_eq!(language_for_extension("js").as_deref(), Some("JavaScript"));
    assert_eq!(language_for_extension("jsx").as_deref(), Some("JavaScript"));
    assert_eq!(language_for_extension("ts").as_deref(), Some("TypeScript"));
    assert_eq!(language_for_extension("tsx").as_deref(), Some("TypeScript"));
    assert_eq!(language_for_extension("py").as_deref(), Some("Python"));
    assert_eq!(language_for_extension("rs").as_deref(), Some("Rust"));
    assert_eq!(language_for_extension("go").as_deref(), Some("Go"));
    assert_eq!(language_for_extension("java").as_deref(), Some("Java"));
    assert_eq!(language_for_extension("kt").as_deref(), Some("Kotlin"));
    assert_eq!(language_for_extension("cs").as_deref(), Some("C#"));
    assert_eq!(language_for_extension("cpp").as_deref(), Some("C++"));
    assert_eq!(language_for_extension("cc").as_deref(), Some("C"));
    assert_eq!(language_for_extension("c").as_deref(), Some("C"));
    assert_eq!(language_for_extension("md"), None);
    assert_eq!(language_for_extension(""), None);
}

#[test]
fn only_mp3_and_wav_are_music_files() {
    assert!(is_music_extension("mp3"));
    assert!(is_music_extension("wav"));
    assert!(!is_music_extension("flac"));
    assert!(!is_music_extension(""));
}
