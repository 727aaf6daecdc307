//! Configuration values, expansion and paths.

use agentcord::config::{
    expand_string, expand_value, read_duration, valid_env_name, AgentConfig, AgentKey, Agents,
    Config, DiscordConfig, DurationProblem, DurationSetting, PermissionsConfig, ProjectsConfig,
    Setting, TagEmoji, TimeSpan, Timeouts,
};
use agentcord::ids::{ChannelId, EmojiId, GuildId, UserId};
use agentcord::paths::{
    config_path, expand_home, expand_home_in, project_label, project_label_in, shorten_home,
    shorten_home_in, state_path,
};
use agentcord::settings::{parse_settings, settable, SettingsProblem, TomlLeaf};

fn example() -> AgentConfig {
    AgentConfig {
        display_name: "Example Agent".to_owned(),
        command: "example-agent-acp".to_owned(),
        args: vec![],
        env: vec![],
        emoji: TagEmoji::Unicode("🤖".to_owned()),
    }
}

/// Returns the smallest valid configuration.
fn minimal_config() -> Config {
    let mut agents = Agents::new();
    agents.insert(AgentKey::new("example"), example());
    Config {
        discord: DiscordConfig {
            bot_token: "token".to_owned(),
            guild_id: GuildId(1),
            allowed_user_id: UserId(2),
            forum_channel_id: ChannelId(3),
        },
        projects: ProjectsConfig {
            base_path: "~/Projects".to_owned(),
        },
        agents,
        permissions: PermissionsConfig::default(),
        timeouts: Timeouts::default(),
    }
}

fn lookup(name: &str) -> Option<String> {
    match name {
        "VALUE" => Some("replacement".into()),
        _ => None,
    }
}

/// The setting below names.
fn at<'a>(setting: &'a Setting<TomlLeaf>, names: &[&str]) -> &'a Setting<TomlLeaf> {
    let mut found = setting;
    for name in names {
        let Setting::Table(entries) = found else {
            panic!("`{name}` is not in a table");
        };
        found = &entries
            .iter()
            .find(|entry| entry.0 == *name)
            .expect("a setting of this name")
            .1;
    }
    found
}

fn text_at<'a>(setting: &'a Setting<TomlLeaf>, names: &[&str]) -> &'a str {
    match at(setting, names) {
        Setting::Text(text) => text,
        _ => panic!("no text"),
    }
}

fn list_at<'a>(setting: &'a Setting<TomlLeaf>, names: &[&str]) -> Vec<&'a str> {
    let Setting::List(values) = at(setting, names) else {
        panic!("no list");
    };
    values
        .iter()
        .map(|value| match value {
            Setting::Text(text) => text.as_str(),
            _ => panic!("no text"),
        })
        .collect()
}

/// Verifies environment expansion traverses nested values.
#[test]
fn expands_string_leaves_in_nested_tables_and_arrays() {
    let raw = r#"
            [nested]
            value = "prefix-${VALUE}"
            values = ["${VALUE}", "${MISSING}"]
            [nested.more]
            value = "${VALUE}/suffix"
        "#;
    let settings = parse_settings(raw, &lookup).expect("valid TOML");
    assert_eq!(text_at(&settings, &["nested", "value"]), "prefix-replacement");
    assert_eq!(
        list_at(&settings, &["nested", "values"]),
        vec!["replacement", "${MISSING}"]
    );
    assert_eq!(
        text_at(&settings, &["nested", "more", "value"]),
        "replacement/suffix"
    );
}

/// Verifies defaults and both supported duration formats.
#[test]
fn parses_schema_defaults_and_duration_forms() {
    let raw = r#"
                [discord]
                bot_token = "token"
                guild_id = 1
                allowed_user_id = 2
                forum_channel_id = 3

                [projects]
                base_path = "/tmp/projects"

                [agents.example]
                display_name = "Example Agent"
                command = "example-agent-acp"
                args = ["--stdio"]
                env = { SETTING = "1" }
                emoji = { id = 7, animated = true }

                [timeouts]
                startup = 42
                prompt = "2m"
                edit_debounce = "100ms"
            "#;
    let settings = parse_settings(raw, &lookup).expect("valid configuration");
    let number = |names: &[&str]| match at(&settings, names) {
        Setting::Other(TomlLeaf::Signed(value)) => *value,
        _ => panic!("no number"),
    };
    let human = |name: &str| {
        let value = text_at(&settings, &["timeouts", name]).to_owned();
        read_duration(&DurationSetting::Human(value)).expect("a duration")
    };
    assert_eq!(number(&["discord", "guild_id"]), 1);
    assert_eq!(list_at(&settings, &["agents", "example", "args"]), vec!["--stdio"]);
    let startup = number(&["timeouts", "startup"]) as u64;
    assert_eq!(
        read_duration(&DurationSetting::Seconds(startup)).expect("seconds"),
        TimeSpan::from_secs(42)
    );
    assert_eq!(human("prompt"), TimeSpan::from_secs(120));
    assert_eq!(
        human("edit_debounce"),
        TimeSpan {
            secs: 0,
            nanos: 100_000_000
        }
    );
    let Setting::Table(timeouts) = at(&settings, &["timeouts"]) else {
        panic!("no table");
    };
    assert!(timeouts.iter().all(|entry| entry.0 != "modal"));
    assert_eq!(Timeouts::default().modal, TimeSpan::from_secs(300));
    minimal_config().validate().expect("valid configuration");
}

#[test]
fn settings_keep_every_kind_of_leaf() {
    let settings = parse_settings(
        "yes = true\nhalf = 0.5\nday = 2024-01-02\n\"far.away\" = \"${VALUE}\"",
        &lookup,
    )
    .expect("valid TOML");
    assert!(matches!(at(&settings, &["yes"]), Setting::Other(TomlLeaf::Boolean(true))));
    assert!(
        matches!(at(&settings, &["half"]), Setting::Other(TomlLeaf::Fraction(value)) if value == "0.5")
    );
    assert_eq!(text_at(&settings, &["day"]), "2024-01-02");
    assert_eq!(text_at(&settings, &["far", "away"]), "replacement");
}

#[test]
fn names_at_the_top_may_be_paths() {
    let settings = parse_settings(
        "\"discord.bot_token\" = \"${VALUE}\"\n\"discord.guild_id\" = 1\n[discord]\nforum = 2",
        &lookup,
    )
    .expect("valid TOML");
    assert_eq!(text_at(&settings, &["discord", "bot_token"]), "replacement");
    assert!(matches!(
        at(&settings, &["discord", "guild_id"]),
        Setting::Other(TomlLeaf::Signed(1))
    ));
    assert!(matches!(
        at(&settings, &["discord", "forum"]),
        Setting::Other(TomlLeaf::Signed(2))
    ));
    let settings = parse_settings("\"a[1]\" = \"x\"\n\"a[0]\" = \"y\"", &lookup).unwrap();
    assert_eq!(list_at(&settings, &["a"]), vec!["y", "x"]);
    let settings = parse_settings("\"a.b\" = 1\n[a]\nb = 2", &lookup).unwrap();
    assert!(matches!(
        at(&settings, &["a", "b"]),
        Setting::Other(TomlLeaf::Signed(1))
    ));
}

#[test]
fn settings_that_cannot_be_read_are_refused() {
    assert!(matches!(
        parse_settings("a = ", &lookup),
        Err(SettingsProblem::Unreadable(_))
    ));
    assert!(matches!(
        parse_settings("\"a[9223372036854775807]\" = 1", &lookup),
        Err(SettingsProblem::ListTooLong)
    ));
    assert!(settable("a.b[123456].c"));
    assert!(settable("a1234567"));
    assert!(!settable("a[1234567]"));
}

#[test]
fn an_environment_value_is_no_toml() {
    let settings = parse_settings("a = \"${QUOTE}\"\nb = 1", &|name: &str| {
        (name == "QUOTE").then_some("\"\n[c]\nd = 1".to_owned())
    })
    .expect("valid TOML");
    assert_eq!(text_at(&settings, &["a"]), "\"\n[c]\nd = 1");
    let Setting::Table(entries) = &settings else {
        panic!("the root is a table");
    };
    assert_eq!(entries.len(), 2);
}

/// Verifies that only names of variables are looked up.
#[test]
fn only_names_are_looked_up() {
    let value = "${1A}${}${a-b}${${A}}";
    let expanded = expand_string(value, &|name: &str| -> Option<String> {
        panic!("looked up {name}")
    });
    assert_eq!(expanded, value);
}

/// Verifies expansion of a tree that was built by hand.
#[test]
fn a_tree_keeps_its_structure() {
    let settings: Setting<()> = Setting::Table(vec![(
        "nested".to_owned(),
        Setting::Table(vec![
            (
                "value".to_owned(),
                Setting::Text("prefix-${VALUE}".to_owned()),
            ),
            (
                "values".to_owned(),
                Setting::List(vec![
                    Setting::Text("${VALUE}".to_owned()),
                    Setting::Text("${MISSING}".to_owned()),
                    Setting::Other(()),
                ]),
            ),
            (
                "more".to_owned(),
                Setting::Table(vec![(
                    "value".to_owned(),
                    Setting::Text("${VALUE}/suffix".to_owned()),
                )]),
            ),
        ]),
    )]);
    let Setting::Table(root) = expand_value(settings, &lookup) else {
        panic!("the root stays a table");
    };
    let Setting::Table(nested) = &root[0].1 else {
        panic!("the nested table stays a table");
    };
    assert!(matches!(&nested[0].1, Setting::Text(text) if text == "prefix-replacement"));
    let Setting::List(values) = &nested[1].1 else {
        panic!("the list stays a list");
    };
    assert!(matches!(&values[0], Setting::Text(text) if text == "replacement"));
    assert!(matches!(&values[1], Setting::Text(text) if text == "${MISSING}"));
    let Setting::Table(more) = &nested[2].1 else {
        panic!("the inner table stays a table");
    };
    assert!(matches!(&more[0].1, Setting::Text(text) if text == "replacement/suffix"));
}

/// Verifies expansion is single-pass and preserves invalid placeholders.
#[test]
fn expansion_is_single_pass_and_leaves_invalid_placeholders() {
    let expanded = expand_string("${NESTED}-${bad}-${UNFINISHED", &|name: &str| match name {
        "NESTED" => Some("${OTHER}".into()),
        _ => None,
    });
    assert_eq!(expanded, "${OTHER}-${bad}-${UNFINISHED");
}

#[test]
fn environment_names_are_identifiers() {
    assert!(valid_env_name("A_1"));
    assert!(valid_env_name("_A"));
    assert!(valid_env_name("a"));
    assert!(!valid_env_name("a-b"));
    assert!(!valid_env_name("1A"));
    assert!(!valid_env_name(""));
}

/// Verifies validation rejects configurations without agents.
#[test]
fn validation_rejects_missing_agents() {
    let mut config = minimal_config();
    assert!(config.validate().is_ok());
    config.agents.clear();
    assert!(config.validate().is_err());
}

#[test]
fn validation_rejects_unusable_agents() {
    let mut config = minimal_config();
    let mut agent = example();
    agent.command = String::new();
    config.agents.insert(AgentKey::new("blank"), agent);
    assert!(config.validate().is_err());
    let mut config = minimal_config();
    config.agents.insert(AgentKey::new("a key that is far too long"), example());
    assert_eq!(
        config.validate().unwrap_err().message(),
        "agent key `a key that is far too long` must contain 1–20 characters because it names the forum tag"
    );
}

/// Verifies shown configuration redacts secret values.
#[test]
fn debug_redacts_discord_and_agent_environment_secrets() {
    let mut config = minimal_config();
    config.discord.bot_token = "discord-secret".into();
    let mut agent = example();
    agent.args = vec![String::from("agent-secret")];
    agent.env = vec![(String::from("SECRET"), String::from("agent-secret"))];
    config.agents.insert(AgentKey::new("example"), agent);

    let shown = config.redacted();
    let agent = shown.agents.get("example").expect("agent");
    let debug = format!(
        "{} {:?} {:?}",
        shown.discord.bot_token, agent.args, agent.env
    );
    assert!(!debug.contains("discord-secret"));
    assert!(!debug.contains("agent-secret"));
    assert!(debug.contains("[REDACTED]"));
}

/// Verifies configuration and state paths stay under their application
/// directories.
#[test]
fn paths_are_scoped_to_agentcord() {
    assert!(config_path().ends_with("agentcord/config.toml"));
    assert!(state_path().ends_with("agentcord/state.sqlite3"));
}

#[test]
fn durations_are_seconds_or_human_readable() {
    let read = |setting: DurationSetting| read_duration(&setting);
    assert_eq!(
        read(DurationSetting::Seconds(42)).unwrap(),
        TimeSpan { secs: 42, nanos: 0 }
    );
    assert_eq!(
        read(DurationSetting::Human("2m".to_owned())).unwrap(),
        TimeSpan {
            secs: 120,
            nanos: 0
        }
    );
    assert_eq!(
        read(DurationSetting::Human("100ms".to_owned())).unwrap(),
        TimeSpan {
            secs: 0,
            nanos: 100_000_000
        }
    );
    assert!(matches!(
        read(DurationSetting::Human("soon".to_owned())),
        Err(DurationProblem::Unreadable(_))
    ));
}

#[test]
fn durations_that_do_not_add_up_are_refused() {
    let read = |value: &str| read_duration(&DurationSetting::Human(value.to_owned()));
    assert!(matches!(
        read("18446744073709551615s 1000ms"),
        Err(DurationProblem::TooLong)
    ));
    assert_eq!(
        read("18446744073709551615s").unwrap(),
        TimeSpan::from_secs(u64::MAX)
    );
    assert_eq!(
        read("1year 2months 3days 4h 5m 6s 789ms 123us 456ns").unwrap(),
        TimeSpan {
            secs: 31_557_600 + 2 * 2_630_016 + 3 * 86_400 + 4 * 3600 + 5 * 60 + 6,
            nanos: 789_123_456
        }
    );
    assert_eq!(read(&"1s ".repeat(40)).unwrap(), TimeSpan::from_secs(40));
    assert_eq!(
        read("1h 10000000000ns").unwrap(),
        TimeSpan::from_secs(3610)
    );
    assert_eq!(
        read("18446744073709551614s 1000ms").unwrap(),
        TimeSpan::from_secs(u64::MAX)
    );
    assert_eq!(
        read("18446744073709551615s999ms").unwrap(),
        TimeSpan {
            secs: u64::MAX,
            nanos: 999_000_000
        }
    );
    assert!(matches!(read("1h 0"), Err(DurationProblem::Unreadable(_))));
    assert!(matches!(read("1h !"), Err(DurationProblem::Unreadable(_))));
    assert!(matches!(read(""), Err(DurationProblem::Unreadable(_))));
}

#[test]
fn home_paths_are_expanded_and_shortened() {
    let home = Some("/home/ann".to_owned());
    assert_eq!(
        expand_home_in("~/work", &home).as_deref(),
        Some("/home/ann/work")
    );
    assert_eq!(expand_home_in("/work", &None).as_deref(), Some("/work"));
    assert_eq!(expand_home_in("~/work", &None), None);
    assert_eq!(shorten_home_in("/home/ann/work", &home), "~/work");
    assert_eq!(shorten_home_in("/home/anna/work", &home), "/home/anna/work");
    assert_eq!(project_label_in("/home/ann/p/demo", "/home/ann/p", &home), "demo");
    assert_eq!(expand_home("/work").unwrap(), "/work");
    assert_eq!(shorten_home("/nowhere/else"), "/nowhere/else");
    assert_eq!(project_label("/base/demo", "/base"), "demo");
}

#[test]
fn a_custom_emoji_keeps_its_id() {
    let emoji = TagEmoji::Custom {
        id: EmojiId(7),
        animated: true,
    };
    assert_eq!(emoji.copy(), emoji);
}
