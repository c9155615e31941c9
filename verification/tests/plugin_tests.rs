use timeline_plugin_git::client::{Component, Plugin as ClientPlugin, Style};
use timeline_plugin_git::commit::{DatabaseCommit, SourceTag};
use timeline_plugin_git::server::{ConfigData, Plugin, REFRESH_MINUTES};

#[test]
fn plugin_keeps_its_configured_folder() {
    let plugin = Plugin::new(ConfigData { repo_folder: "/srv/git".to_string() });
    assert_eq!(plugin.repo_folder(), "/srv/git");
}

#[test]
fn plugin_type_is_the_git_plugin() {
    assert_eq!(Plugin::get_type(), SourceTag { name: "timeline_plugin_git".to_string() });
}

#[test]
fn refresh_period_is_fifteen_minutes() {
    assert_eq!(REFRESH_MINUTES, 15);
}

#[test]
fn client_style_is_the_first_accent() {
    assert_eq!(ClientPlugin::new().get_style(), Style::Acc1);
}

#[test]
fn component_shows_repository_then_message_then_author() {
    let data = Ok(DatabaseCommit {
        message: "Fix the walker".to_string(),
        author: "Grace <grace@example.org>".to_string(),
        repository_name: "timeline".to_string(),
    });
    assert_eq!(
        ClientPlugin::new().get_component(&data),
        Ok(Component {
            style: Style::Acc1,
            heading: "timeline".to_string(),
            lines: vec!["Fix the walker".to_string(), "Grace <grace@example.org>".to_string()],
        })
    );
}

#[test]
fn component_of_missing_data_is_the_failure() {
    let data: Result<DatabaseCommit, String> = Err("wrong payload type".to_string());
    assert_eq!(ClientPlugin::new().get_component(&data), Err("wrong payload type".to_string()));
}
