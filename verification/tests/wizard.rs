use auto_dns::{
    create_config_interactively, Answers, Question, RecordAnswer, WizardError, WizardStep,
};

/// Runs the wizard with the lines of `input` as the answers; a question
/// after the last line is answered with an empty line, as at the end of the
/// input. Gives where the wizard ends and what it put.
fn run(input: &str) -> (WizardStep, String) {
    let mut lines = input.split_inclusive('\n');
    let mut put = String::new();
    let mut step = WizardStep::Ask(create_config_interactively());
    loop {
        match step {
            WizardStep::Ask(wizard) => {
                put.push_str(&wizard.prompt());
                step = wizard.answer(lines.next().unwrap_or(""));
            }
            end => return (end, put),
        }
    }
}

fn table<'a>(table: &'a toml::Table, key: &str) -> &'a toml::Table {
    table.get(key).and_then(|v| v.as_table()).expect("a table")
}

fn text<'a>(table: &'a toml::Table, key: &str) -> &'a str {
    table.get(key).and_then(|v| v.as_str()).expect("a string")
}

#[test]
fn test_write_config_flag() {
    let input = "us-west-2\ntest_access_key\ntest_secret\n2\nZ123456789\nhome.example.com\n\nZ987654321\noffice.example.com\n600\n";
    let (end, _) = run(input);
    let answers = match end {
        WizardStep::Done(answers) => answers,
        other => panic!("Process failed: {:?}", other),
    };
    let config_content = answers.render();

    let parsed_config: toml::Table =
        toml::from_str(&config_content).expect("Generated config is not valid TOML");

    let aws_section = table(&parsed_config, "aws");
    assert_eq!(text(aws_section, "region"), "us-west-2");
    assert_eq!(text(aws_section, "access_key_id"), "test_access_key");
    assert_eq!(text(aws_section, "secret_access_key"), "test_secret");

    let records =
        parsed_config.get("records").and_then(|v| v.as_array()).expect("Records should be an array");
    assert_eq!(records.len(), 2);

    let first_record = records[0].as_table().expect("Record should be a table");
    assert_eq!(text(first_record, "hosted_zone_id"), "Z123456789");
    assert_eq!(text(first_record, "name"), "home.example.com");
    assert_eq!(first_record.get("ttl").and_then(|v| v.as_integer()), Some(300));

    let second_record = records[1].as_table().expect("Record should be a table");
    assert_eq!(text(second_record, "hosted_zone_id"), "Z987654321");
    assert_eq!(text(second_record, "name"), "office.example.com");
    assert_eq!(second_record.get("ttl").and_then(|v| v.as_integer()), Some(600));
}

#[test]
fn test_write_config_minimal_input() {
    let input = "eu-central-1\n\n\n1\nZ111111111\napi.test.com\n\n";
    let (end, _) = run(input);
    let answers = match end {
        WizardStep::Done(answers) => answers,
        other => panic!("Process failed: {:?}", other),
    };
    let config_content = answers.render();

    let parsed_config: toml::Table =
        toml::from_str(&config_content).expect("Generated config is not valid TOML");

    let aws_section = table(&parsed_config, "aws");
    assert_eq!(text(aws_section, "region"), "eu-central-1");
    assert!(aws_section.get("access_key_id").is_none());
    assert!(aws_section.get("secret_access_key").is_none());

    let records =
        parsed_config.get("records").and_then(|v| v.as_array()).expect("Records should be an array");
    assert_eq!(records.len(), 1);

    let record = records[0].as_table().expect("Record should be a table");
    assert_eq!(text(record, "hosted_zone_id"), "Z111111111");
    assert_eq!(text(record, "name"), "api.test.com");
    assert_eq!(record.get("ttl").and_then(|v| v.as_integer()), Some(300));
}

#[test]
fn the_configuration_is_written_letter_for_letter() {
    let answers = Answers {
        region: "us-west-2".to_string(),
        access_key_id: "key".to_string(),
        secret_access_key: "secret".to_string(),
        records: vec![
            RecordAnswer {
                hosted_zone_id: "Z1".to_string(),
                name: "home.example.com".to_string(),
                ttl: 300,
            },
            RecordAnswer { hosted_zone_id: "Z2".to_string(), name: "b.example.com".to_string(), ttl: -7 },
        ],
    };
    assert_eq!(
        answers.render(),
        "[aws]\nregion = \"us-west-2\"\naccess_key_id = \"key\"\nsecret_access_key = \"secret\"\n\
         \n[[records]]\nhosted_zone_id = \"Z1\"\nname = \"home.example.com\"\nttl = 300\
         \n[[records]]\nhosted_zone_id = \"Z2\"\nname = \"b.example.com\"\nttl = -7"
    );
    let bare = Answers {
        region: String::new(),
        access_key_id: "key".to_string(),
        secret_access_key: String::new(),
        records: vec![],
    };
    assert_eq!(bare.render(), "[aws]\nregion = \"\"\n");
}

#[test]
fn the_questions_are_put_in_order() {
    let (end, put) = run(" us-east-1 \nk\ns\n2\nZ1\na.example.com\n60\nZ2\nb.example.com\n\n");
    assert_eq!(
        put,
        "AWS Configuration:\nAWS Region (e.g., us-east-1): \
         AWS Access Key ID (optional, leave empty to use default credentials): \
         AWS Secret Access Key (optional, leave empty to use default credentials): \
         \nDNS Records Configuration:\nHow many DNS records do you want to configure? \
         \nRecord 1:\nHosted Zone ID: Record name (e.g., home.example.com): \
         TTL in seconds (default 300): \
         \nRecord 2:\nHosted Zone ID: Record name (e.g., home.example.com): \
         TTL in seconds (default 300): "
    );
    assert_eq!(
        end,
        WizardStep::Done(Answers {
            region: "us-east-1".to_string(),
            access_key_id: "k".to_string(),
            secret_access_key: "s".to_string(),
            records: vec![
                RecordAnswer {
                    hosted_zone_id: "Z1".to_string(),
                    name: "a.example.com".to_string(),
                    ttl: 60,
                },
                RecordAnswer {
                    hosted_zone_id: "Z2".to_string(),
                    name: "b.example.com".to_string(),
                    ttl: 300,
                },
            ],
        })
    );
}

#[test]
fn an_answer_that_is_no_number_ends_the_wizard() {
    let (end, _) = run("r\n\n\nmany\n");
    assert_eq!(end, WizardStep::Failed(WizardError::InvalidCount("many".to_string())));
    let (end, _) = run("r\n\n\n\n");
    assert_eq!(end, WizardStep::Failed(WizardError::InvalidCount(String::new())));
    let (end, _) = run("r\n\n\n-1\n");
    assert_eq!(end, WizardStep::Failed(WizardError::InvalidCount("-1".to_string())));
    let (end, _) = run("r\n\n\n1\nZ1\na.b\nsoon\n");
    assert_eq!(end, WizardStep::Failed(WizardError::InvalidTtl("soon".to_string())));
    let (end, _) = run("r\n\n\n1\nZ1\na.b\n3000000000\n");
    assert_eq!(end, WizardStep::Failed(WizardError::InvalidTtl("3000000000".to_string())));
}

#[test]
fn no_records_asked_for_means_no_question_about_records() {
    let (end, put) = run("r\nk\ns\n0\n");
    assert!(matches!(&end, WizardStep::Done(answers) if answers.records.is_empty()));
    assert!(!put.contains("Hosted Zone ID"));
    let first = create_config_interactively();
    assert_eq!(first.question, Question::Region);
}
