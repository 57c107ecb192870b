use arc::backend::{AgentBackend, ProfileKind};
use arc::sandbox::{DaytonaConfig, SandboxProvider};

#[test]
fn sandbox_provider_default_is_local() {
    assert_eq!(SandboxProvider::default(), SandboxProvider::Local);
}

#[test]
fn sandbox_provider_from_str() {
    assert_eq!(
        "local".parse::<SandboxProvider>().unwrap(),
        SandboxProvider::Local
    );
    assert_eq!(
        "docker".parse::<SandboxProvider>().unwrap(),
        SandboxProvider::Docker
    );
    assert_eq!(
        "daytona".parse::<SandboxProvider>().unwrap(),
        SandboxProvider::Daytona
    );
    assert_eq!(
        "LOCAL".parse::<SandboxProvider>().unwrap(),
        SandboxProvider::Local
    );
    assert!("invalid".parse::<SandboxProvider>().is_err());
}

#[test]
fn sandbox_provider_display() {
    assert_eq!(SandboxProvider::Local.to_string(), "local");
    assert_eq!(SandboxProvider::Docker.to_string(), "docker");
    assert_eq!(SandboxProvider::Daytona.to_string(), "daytona");
}

#[test]
fn sandbox_provider_error_names_lowercased_input() {
    assert_eq!(
        SandboxProvider::parse("Bogus").unwrap_err(),
        "unknown sandbox provider: bogus"
    );
    assert_eq!(SandboxProvider::from_lowercase("Docker").unwrap_err(), "unknown sandbox provider: Docker");
}

#[test]
fn daytona_config_defaults() {
    let config = DaytonaConfig::default();
    assert_eq!(config.image, "ubuntu:22.04");
    assert_eq!(config.working_directory, "/home/daytona/workspace");
}

#[test]
fn agent_backend_profiles() {
    assert_eq!(AgentBackend::new("m".into(), None).profile_kind(), ProfileKind::Anthropic);
    assert_eq!(AgentBackend::new("m".into(), Some("openai".into())).profile_kind(), ProfileKind::OpenAi);
    assert_eq!(AgentBackend::new("m".into(), Some("gemini".into())).profile_kind(), ProfileKind::Gemini);
    assert_eq!(AgentBackend::new("m".into(), Some("other".into())).profile_kind(), ProfileKind::Anthropic);
    assert_eq!(AgentBackend::new("model-x".into(), None).model(), "model-x");
}
