use ncli::cli::{Cli, Command, RunPlan};
use ncli::config::Config;
use ncli::kindle::config::Config as KindleConfig;
use ncli::notion::export::{
    joined_file_name, parse_export_name, parse_versioned_name, remove_dashes, render_version_file,
};

#[test]
fn export_archive_name_accepted() {
    let name = "Export-01234567-89ab-cdef-0123-456789abcdef.zip";
    assert_eq!(
        parse_export_name(name).as_deref(),
        Some("01234567-89ab-cdef-0123-456789abcdef")
    );
}

#[test]
fn export_archive_name_rejected() {
    // Wrong prefix.
    assert_eq!(parse_export_name("Import-01234567-89ab-cdef-0123-456789abcdef.zip"), None);
    // Wrong extension.
    assert_eq!(parse_export_name("Export-01234567-89ab-cdef-0123-456789abcdef.tar"), None);
    // Upper-case hex digit.
    assert_eq!(parse_export_name("Export-0123456A-89ab-cdef-0123-456789abcdef.zip"), None);
    // Misplaced hyphen.
    assert_eq!(parse_export_name("Export-01234567-89ab-cdef-01234-56789abcdef.zip"), None);
    // Wrong length.
    assert_eq!(parse_export_name("Export-0123.zip"), None);
    assert_eq!(parse_export_name(""), None);
}

#[test]
fn dashes_removed() {
    assert_eq!(remove_dashes("0123-4567-89ab"), "0123456789ab");
    assert_eq!(remove_dashes("no dashes"), "no dashes");
    assert_eq!(remove_dashes("---"), "");
}

const HEX32: &str = "0123456789abcdef0123456789abcdef";

#[test]
fn versioned_names_parsed() {
    let md = parse_versioned_name(&format!("My Page {HEX32}.md")).unwrap();
    assert_eq!(md.0, "My Page");
    assert_eq!(md.1, HEX32);
    assert_eq!(md.2.as_deref(), Some("md"));

    let csv = parse_versioned_name(&format!("Table {HEX32}.csv")).unwrap();
    assert_eq!(csv.2.as_deref(), Some("csv"));

    let dir = parse_versioned_name(&format!("A Directory {HEX32}")).unwrap();
    assert_eq!(dir.0, "A Directory");
    assert_eq!(dir.2, None);

    // The name part may itself contain spaces and version-like text; the
    // version is always the last block.
    let tricky = parse_versioned_name(&format!("A {HEX32} B {HEX32}")).unwrap();
    assert_eq!(tricky.0, format!("A {HEX32} B"));
    assert_eq!(tricky.1, HEX32);
}

#[test]
fn versioned_names_rejected() {
    assert_eq!(parse_versioned_name("no version here"), None);
    assert_eq!(parse_versioned_name(HEX32), None);
    assert_eq!(parse_versioned_name(&format!("Name {HEX32}.txt")), None);
    assert_eq!(parse_versioned_name(&format!("Name-{HEX32}")), None);
    let upper = "0123456789ABCDEF0123456789ABCDEF";
    assert_eq!(parse_versioned_name(&format!("Name {upper}")), None);
}

#[test]
fn version_manifest_rendered() {
    assert_eq!(render_version_file("v1", &vec![]), "version: v1\n");
    let files = vec![
        ("a.md".to_string(), "va".to_string()),
        ("b.csv".to_string(), "vb".to_string()),
    ];
    assert_eq!(
        render_version_file("v1", &files),
        "version: v1\n\nfiles:\n- 'a.md': 'va'\n- 'b.csv': 'vb'\n"
    );
}

#[test]
fn file_names_joined() {
    assert_eq!(joined_file_name("Page", "md"), "Page.md");
}

#[test]
fn cli_audible_plan() {
    let cli = Cli {
        command: Command::Audible(ncli::cli::audible::Subcli {
            command: ncli::cli::audible::Command::Export(ncli::cli::audible::ExportCommand {
                source: "/s".into(),
                target: "/t".into(),
                force: true,
                clean: false,
            }),
        }),
        config: "~/.ncli/config.toml".into(),
    };
    match cli.run(Config { kindle: None }) {
        RunPlan::Audible(o) => {
            assert_eq!(o.source, "/s");
            assert_eq!(o.target, "/t");
            assert!(o.force);
            assert!(!o.clean);
        },
        _ => panic!("wrong plan"),
    }
}

#[test]
fn cli_kindle_plan() {
    let cli = Cli {
        command: Command::Kindle(ncli::cli::kindle::Subcli {
            command: ncli::cli::kindle::Command::Export(ncli::cli::kindle::ExportCommand {
                target: "/t".into(),
                headless: true,
            }),
        }),
        config: "c".into(),
    };
    let conf = Config {
        kindle: Some(KindleConfig { email: "e@example.invalid".into(), password: "pw".into() }),
    };
    match cli.run(conf) {
        RunPlan::Kindle(o) => {
            assert_eq!(o.target, "/t");
            assert!(o.headless);
            assert_eq!(o.email, "e@example.invalid");
            assert_eq!(o.password, "pw");
        },
        _ => panic!("wrong plan"),
    }
}

#[test]
fn cli_notion_plan() {
    let cli = Cli {
        command: Command::Notion(ncli::cli::notion::Subcli {
            command: ncli::cli::notion::Command::Extract(ncli::cli::notion::ExtractCommand {
                source: "/z.zip".into(),
                target: "/out".into(),
                force: false,
                clean: true,
            }),
        }),
        config: "c".into(),
    };
    match cli.run(Config { kindle: None }) {
        RunPlan::Notion(o) => {
            assert_eq!(o.source, "/z.zip");
            assert!(o.clean);
        },
        _ => panic!("wrong plan"),
    }
}
