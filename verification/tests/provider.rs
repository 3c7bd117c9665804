use crucible_core::provider::{
    Carried, CredentialError, Effort, ProviderError, ProviderLimit, Spend,
};

#[test]
fn every_rung_is_read_back_from_the_word_it_is_written_as() {
    for rung in [
        Effort::Low,
        Effort::Medium,
        Effort::High,
        Effort::Xhigh,
        Effort::Max,
    ] {
        assert_eq!(rung.as_str().parse(), Ok(rung));
    }
}

#[test]
fn a_rung_nobody_serves_is_refused_with_the_ones_that_are() {
    let refused = "maximum".parse::<Effort>().expect_err("not a rung");

    assert_eq!(
        refused.message(),
        "no effort called maximum; crucible takes low, medium, high, xhigh, max"
    );
}

#[test]
fn a_rung_is_read_however_it_was_capitalised() {
    assert_eq!("HIGH".parse(), Ok(Effort::High));
    assert_eq!(" Max ".parse(), Ok(Effort::Max));
}

#[test]
fn a_refusal_carries_what_the_provider_said() {
    let err = ProviderError::Refused {
        provider: "anthropic",
        status: 404,
        message: "model: fixture-nope not found".into(),
    };
    assert_eq!(
        err.message(),
        "anthropic: HTTP 404: model: fixture-nope not found"
    );
}

#[test]
fn a_resource_failure_names_what_was_bounded() {
    let err = ProviderError::Limit {
        provider: "moonshot",
        limit: ProviderLimit::ToolArguments,
        maximum: 1024,
    };

    assert_eq!(
        err.message(),
        "moonshot: tool arguments exceeded its limit of 1024"
    );
}

#[test]
fn a_credential_error_does_not_carry_the_secret_forward() {
    let err = ProviderError::Credential {
        provider: "anthropic",
        source: CredentialError::NotInEnvironment("ANTHROPIC_API_KEY".into()),
    };
    let shown = err.message();
    assert_eq!(shown, "anthropic: ANTHROPIC_API_KEY is not set");
    assert!(
        shown.contains("ANTHROPIC_API_KEY"),
        "the variable name helps"
    );
}

#[test]
fn a_failure_about_the_moment_is_worth_asking_again_and_one_about_the_request_is_not() {
    let moment = [
        ProviderError::Transport {
            provider: "openai",
            problem: "connection closed before any data was read".into(),
        },
        ProviderError::Upstream {
            provider: "openai",
            kind: "overloaded_error".into(),
            message: "the engine is currently overloaded".into(),
        },
    ];

    for failure in moment {
        assert!(failure.transient(), "{}", failure.message());
    }

    let request = [
        ProviderError::Protocol {
            provider: "openai",
            problem: "no `type` on the event".into(),
        },
        ProviderError::Limit {
            provider: "openai",
            limit: ProviderLimit::ToolArguments,
            maximum: 1024,
        },
        ProviderError::Credential {
            provider: "openai",
            source: CredentialError::NotInEnvironment("OPENAI_API_KEY".into()),
        },
        ProviderError::Cancelled("openai"),
        ProviderError::Unconfigured("no credential for any provider".into()),
    ];

    for failure in request {
        assert!(!failure.transient(), "{}", failure.message());
    }
}

#[test]
fn a_refusal_is_worth_asking_again_only_where_the_status_is_about_the_moment() {
    for status in [408, 429, 500, 503, 529] {
        assert!(refusal(status).transient(), "HTTP {status}");
    }

    for status in [400, 401, 403, 404, 413, 422] {
        assert!(!refusal(status).transient(), "HTTP {status}");
    }
}

fn refusal(status: u16) -> ProviderError {
    ProviderError::Refused {
        provider: "openai",
        status,
        message: "no".into(),
    }
}

#[test]
fn spending_saturates_and_carrying_is_a_level() {
    assert_eq!(Spend::new(3).and(Spend::new(4)).tokens(), 7);
    assert_eq!(Spend::new(u64::MAX).and(Spend::new(1)).tokens(), u64::MAX);
    assert_eq!(Spend::none().tokens(), 0);
    assert_eq!(Carried::new(12).tokens(), 12);
    assert_eq!(Carried::default().tokens(), 0);
    assert_eq!(Effort::default(), Effort::High);
    assert_eq!(
        ProviderError::WindowExceeded { provider: "openai" }.message(),
        "openai: the request did not fit the model's window"
    );
    assert_eq!(ProviderError::Cancelled("openai").message(), "openai: cancelled");
    assert_eq!(Effort::ladder().map(Effort::as_str), ["low", "medium", "high", "xhigh", "max"]);
}
