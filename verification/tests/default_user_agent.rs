use alamofire_kit::app_build::DefaultUserAgentAppBuild;
use alamofire_kit::default_user_agent::DefaultUserAgent;
use alamofire_kit::os_name::DefaultUserAgentOsName;
use alamofire_kit::version::Version;

#[test]
fn test_default() {
    assert_eq!(
        DefaultUserAgent::default(),
        DefaultUserAgent {
            executable: None,
            app_version: None,
            bundle: None,
            app_build: None,
            os_name: None,
            os_version: "0.0.0".parse().unwrap(),
            alamofire_version: "5.6.4".parse().unwrap()
        }
    );
}

#[test]
fn test_parse() {
    assert_eq!(
        DefaultUserAgent::parse(
            "iOS Example/1.0.0 (org.alamofire.iOS-Example; build:1; iOS 13.0.0) Alamofire/5.0.0"
                .as_bytes()
        )
        .unwrap(),
        DefaultUserAgent {
            executable: Some("iOS Example".to_owned()),
            app_version: Some("1.0.0".parse().unwrap()),
            bundle: Some("org.alamofire.iOS-Example".to_owned()),
            app_build: Some(DefaultUserAgentAppBuild("1.0.0".parse().unwrap())),
            os_name: Some(DefaultUserAgentOsName::iOS),
            os_version: "13.0.0".parse().unwrap(),
            alamofire_version: "5.0.0".parse().unwrap()
        }
    );

    assert_eq!(
        DefaultUserAgent::parse(
            "Unknown/Unknown (Unknown; build:Unknown; Unknown 13.0.0) Alamofire/5.0.0".as_bytes()
        )
        .unwrap(),
        DefaultUserAgent {
            executable: None,
            app_version: None,
            bundle: None,
            app_build: None,
            os_name: None,
            os_version: "13.0.0".parse().unwrap(),
            alamofire_version: "5.0.0".parse().unwrap()
        }
    );
}

#[test]
fn test_to_string() {
    assert_eq!(
        DefaultUserAgent {
            executable: Some("iOS Example".to_owned()),
            app_version: Some("1.0.0".parse().unwrap()),
            bundle: Some("org.alamofire.iOS-Example".to_owned()),
            app_build: Some(DefaultUserAgentAppBuild("1.0.0".parse().unwrap())),
            os_name: Some(DefaultUserAgentOsName::iOS),
            os_version: "13.0.0".parse().unwrap(),
            alamofire_version: "5.0.0".parse().unwrap()
        }
        .to_string(),
        "iOS Example/1.0.0 (org.alamofire.iOS-Example; build:1; iOS 13.0.0) Alamofire/5.0.0"
    );

    assert_eq!(
        DefaultUserAgent {
            executable: None,
            app_version: None,
            bundle: None,
            app_build: None,
            os_name: None,
            os_version: "13.0.0".parse().unwrap(),
            alamofire_version: "5.0.0".parse().unwrap()
        }
        .to_string(),
        "Unknown/Unknown (Unknown; build:Unknown; Unknown 13.0.0) Alamofire/5.0.0"
    );
}

const FULL: &str =
    "iOS Example/1.0.0 (org.alamofire.iOS-Example; build:1; iOS 13.0.0) Alamofire/5.0.0";

const ABSENT: &str = "Unknown/Unknown (Unknown; build:Unknown; Unknown 13.0.0) Alamofire/5.0.0";

fn full() -> DefaultUserAgent {
    DefaultUserAgent {
        executable: Some("iOS Example".to_owned()),
        app_version: Some("1.0.0".parse().unwrap()),
        bundle: Some("org.alamofire.iOS-Example".to_owned()),
        app_build: Some(DefaultUserAgentAppBuild("1.0.0".parse().unwrap())),
        os_name: Some(DefaultUserAgentOsName::iOS),
        os_version: "13.0.0".parse().unwrap(),
        alamofire_version: "5.0.0".parse().unwrap(),
    }
}

#[test]
fn parse_reads_every_field() {
    let agent = DefaultUserAgent::parse(FULL.as_bytes()).unwrap();
    assert_eq!(agent.executable.as_deref(), Some("iOS Example"));
    let app_version = agent.app_version.unwrap();
    assert_eq!((app_version.major, app_version.minor, app_version.patch), (1, 0, 0));
    assert_eq!(agent.bundle.as_deref(), Some("org.alamofire.iOS-Example"));
    let app_build = agent.app_build.unwrap();
    assert_eq!((app_build.0.major, app_build.0.minor, app_build.0.patch), (1, 0, 0));
    assert_eq!(app_build.to_string(), "1");
    assert_eq!(agent.os_name, Some(DefaultUserAgentOsName::iOS));
    assert_eq!(agent.os_version.to_string(), "13.0.0");
    assert_eq!(agent.alamofire_version.to_string(), "5.0.0");
}

#[test]
fn parse_reads_the_sentinel_as_absence() {
    let agent = DefaultUserAgent::parse(ABSENT.as_bytes()).unwrap();
    assert_eq!(agent.executable, None);
    assert_eq!(agent.app_version, None);
    assert_eq!(agent.bundle, None);
    assert_eq!(agent.app_build, None);
    assert_eq!(agent.os_name, None);
    assert_eq!(agent.os_version, Version::new(13, 0, 0));
    assert_eq!(agent.alamofire_version, Version::new(5, 0, 0));
}

#[test]
fn from_str_reads_as_parse_does() {
    let agent: DefaultUserAgent = FULL.parse().unwrap();
    assert_eq!(agent, full());
    assert!("no delimiter".parse::<DefaultUserAgent>().is_err());
}

#[test]
fn round_trip_of_canonical_descriptors() {
    let mut agents = vec![full(), DefaultUserAgent::default()];
    agents.push(DefaultUserAgent {
        executable: Some("Žluťoučký kůň 🐎".to_owned()),
        app_version: Some("10.20.30-rc.1+build.5".parse().unwrap()),
        bundle: Some("com.example/app (beta)".to_owned()),
        app_build: Some(DefaultUserAgentAppBuild(Version::new(7, 0, 3))),
        os_name: Some(DefaultUserAgentOsName::macOSCatalyst),
        os_version: "14.2.1-beta".parse().unwrap(),
        alamofire_version: "5.6.4+sha.abc".parse().unwrap(),
    });
    agents.push(DefaultUserAgent {
        executable: Some(String::new()),
        app_version: None,
        bundle: Some(String::new()),
        app_build: Some(DefaultUserAgentAppBuild(Version::new(4, 2, 0))),
        os_name: Some(DefaultUserAgentOsName::Windows),
        os_version: Version::new(0, 0, 0),
        alamofire_version: Version::new(18446744073709551615, 0, 1),
    });
    for agent in agents {
        assert!(agent.is_canonical());
        let text = agent.to_string();
        assert_eq!(DefaultUserAgent::parse(text.as_bytes()).unwrap(), agent);
    }
}

#[test]
fn descriptors_that_are_not_canonical() {
    let mut agent = full();
    assert!(agent.is_canonical());
    agent.executable = Some("a/b".to_owned());
    assert!(!agent.is_canonical());
    let read = DefaultUserAgent::parse(agent.to_string().as_bytes());
    assert!(read.is_err() || read.unwrap() != agent);

    let mut agent = full();
    agent.executable = Some("Unknown".to_owned());
    assert!(!agent.is_canonical());
    let read = DefaultUserAgent::parse(agent.to_string().as_bytes()).unwrap();
    assert_eq!(read.executable, None);

    let mut agent = full();
    agent.bundle = Some("a;b".to_owned());
    assert!(!agent.is_canonical());

    let mut agent = full();
    agent.app_build = Some(DefaultUserAgentAppBuild("1.2.3-alpha".parse().unwrap()));
    assert!(!agent.is_canonical());
    let read = DefaultUserAgent::parse(agent.to_string().as_bytes()).unwrap();
    assert_eq!(read.app_build, Some(DefaultUserAgentAppBuild(Version::new(1, 2, 3))));

    let mut agent = full();
    agent.os_version.pre = "not a tag".to_owned();
    assert!(!agent.is_canonical());

    let mut agent = full();
    agent.alamofire_version.pre = "01".to_owned();
    assert!(!agent.is_canonical());
}

#[test]
fn sentinel_symmetry() {
    let agent = DefaultUserAgent::default();
    let text = agent.to_string();
    assert_eq!(text, "Unknown/Unknown (Unknown; build:Unknown; Unknown 0.0.0) Alamofire/5.6.4");
    assert_eq!(text.matches("Unknown").count(), 5);
    assert_eq!(DefaultUserAgent::parse(text.as_bytes()).unwrap(), agent);
}

#[test]
fn parse_after_to_string_is_idempotent() {
    let inputs = [
        FULL,
        ABSENT,
        "App/2.0.0 (b; build:1.0.0; macOS 1.2.3) Alamofire/5.6.4",
        "App/2.0.0 (b; build:1.2.0; Linux 1.2.3) Alamofire/5.6.4",
        "App/2.0.0 (b; build:3.0.1; tvOS 1.2.3) Alamofire/5.6.4\n",
    ];
    for input in inputs {
        let first = DefaultUserAgent::parse(input.as_bytes()).unwrap();
        let second = DefaultUserAgent::parse(first.to_string().as_bytes()).unwrap();
        assert_eq!(first, second);
        assert_eq!(first.to_string(), second.to_string());
    }
}

#[test]
fn to_string_drops_the_precision_of_the_build_number() {
    let agent =
        DefaultUserAgent::parse(b"App/2.0.0 (b; build:1.0.0; macOS 1.2.3) Alamofire/5.6.4")
            .unwrap();
    assert_eq!(agent.to_string(), "App/2.0.0 (b; build:1; macOS 1.2.3) Alamofire/5.6.4");
}

#[test]
fn a_line_terminator_may_end_the_input() {
    let mut bytes = FULL.as_bytes().to_vec();
    bytes.push(b'\n');
    assert_eq!(DefaultUserAgent::parse(&bytes).unwrap(), full());
}

#[test]
fn text_fields_may_hold_any_text_but_their_delimiter() {
    let agent = DefaultUserAgent::parse(
        "a b(c);d/1.0.0 (x/y z; build:2; watchOS 1.0.0) Alamofire/5.0.0".as_bytes(),
    )
    .unwrap();
    assert_eq!(agent.executable.as_deref(), Some("a b(c);d"));
    assert_eq!(agent.bundle.as_deref(), Some("x/y z"));
    assert_eq!(agent.os_name, Some(DefaultUserAgentOsName::watchOS));
}

#[test]
fn text_fields_are_decoded_from_utf8() {
    let agent = DefaultUserAgent::parse(
        "Ünïcødé/1.0.0 (日本語; build:2; Linux 1.0.0) Alamofire/5.0.0".as_bytes(),
    )
    .unwrap();
    assert_eq!(agent.executable.as_deref(), Some("Ünïcødé"));
    assert_eq!(agent.bundle.as_deref(), Some("日本語"));
    assert_eq!(agent.executable.unwrap().chars().count(), 7);
}

#[test]
fn parse_does_not_trim_or_fold_case() {
    let agent = DefaultUserAgent::parse(
        "unknown/Unknown (Unknown ; build:Unknown; Unknown 1.0.0) Alamofire/5.0.0".as_bytes(),
    )
    .unwrap();
    assert_eq!(agent.executable.as_deref(), Some("unknown"));
    assert_eq!(agent.bundle.as_deref(), Some("Unknown "));
}
