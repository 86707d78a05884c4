//! Generation of advertising texts by a language model: which texts to
//! generate, from what, and the prompt that describes the audience.

use vstd::prelude::*;
use vstd::string::StringExecFns;

use crate::ads::Targeting;
use crate::error::ServiceError;
use crate::text;
use crate::text::{chars_of, decimal_string, replace_all, string_of};

verus! {

/// Which texts of a campaign to generate, and from what: the body and the
/// title are generated from the given texts, the body first.
pub struct GenerationPlan {
    pub body_from: Option<String>,
    pub title_from: Option<String>,
}

/// The placeholder of a prompt that the audience description replaces.
pub open spec fn target_placeholder() -> Seq<char> {
    seq!['{', 't', 'a', 'r', 'g', 'e', 't', '}']
}

/// The text of an optional value, or a default.
pub open spec fn text_or(o: Option<String>, default: Seq<char>) -> Seq<char> {
    match o {
        Some(s) => s@,
        None => default,
    }
}

/// The description of an audience given to the model.
pub open spec fn target_description(t: Targeting) -> Seq<char> {
    "Возраст от "@ + text::decimal(
        match t.age_from {
            Some(a) => a as nat,
            None => 0,
        },
    ) + " до "@ + text::decimal(
        match t.age_to {
            Some(a) => a as nat,
            None => 160,
        },
    ) + ", в локации "@ + text_or(t.location, "любой"@) + ", для гендера "@ + text_or(
        t.gender,
        "любого"@,
    )
}

fn text_or_default(o: &Option<String>, default: &str) -> (r: String)
    ensures
        r@ == text_or(*o, default@),
{
    match o {
        Some(s) => s.clone(),
        None => String::from_str(default),
    }
}

/// The service that asks the language model for campaign texts, with its
/// system prompts.
pub struct YandexGptService {
    pub system_prompt_for_generate_title: String,
    pub system_prompt_for_generate_body: String,
}

impl YandexGptService {
    /// A service with the system prompts for titles and for bodies.
    pub fn with_prompts(system_prompt_for_generate_title: String, system_prompt_for_generate_body: String) -> (s: Self)
        ensures
            s.system_prompt_for_generate_title@ == system_prompt_for_generate_title@,
            s.system_prompt_for_generate_body@ == system_prompt_for_generate_body@,
    {
        YandexGptService { system_prompt_for_generate_title, system_prompt_for_generate_body }
    }

    /// Which texts to generate for the generation type `ALL`, `TITLE` or
    /// `TEXT`; a requested text replaces the campaign's current one as the
    /// model's input. Any other type is refused.
    pub fn plan_generation(&self, generate_type: &str, ad_text: Option<String>, ad_title: Option<String>, current_text: &String, current_title: &String) -> (r: Result<GenerationPlan, ServiceError>)
        ensures
            generate_type@ == "ALL"@ ==> (r matches Ok(p) && (p.body_from matches Some(b) && b@
                == text_or(ad_text, current_text@)) && (p.title_from matches Some(t) && t@ == text_or(
                ad_title,
                current_title@,
            ))),
            generate_type@ == "TITLE"@ ==> (r matches Ok(p) && p.body_from is None && (p.title_from matches Some(t)
                && t@ == text_or(ad_title, current_title@))),
            generate_type@ == "TEXT"@ ==> (r matches Ok(p) && (p.body_from matches Some(b) && b@
                == text_or(ad_text, current_text@)) && p.title_from is None),
            (generate_type@ != "ALL"@ && generate_type@ != "TITLE"@ && generate_type@ != "TEXT"@)
                ==> (r matches Err(ServiceError::Validation(m)) && m@ == "Invalid generate type"@),
    {
        let body_from = match ad_text {
            Some(t) => t,
            None => current_text.clone(),
        };
        let title_from = match ad_title {
            Some(t) => t,
            None => current_title.clone(),
        };
        proof {
            reveal_strlit("ALL");
            reveal_strlit("TITLE");
            reveal_strlit("TEXT");
            assert("ALL"@.len() == 3);
            assert("TEXT"@.len() == 4);
            assert("TITLE"@.len() == 5);
        }
        let all = String::from_str("ALL");
        let title = String::from_str("TITLE");
        let body = String::from_str("TEXT");
        let kind = String::from_str(generate_type);
        if kind == all {
            Ok(GenerationPlan { body_from: Some(body_from), title_from: Some(title_from) })
        } else if kind == title {
            Ok(GenerationPlan { body_from: None, title_from: Some(title_from) })
        } else if kind == body {
            Ok(GenerationPlan { body_from: Some(body_from), title_from: None })
        } else {
            Err(ServiceError::Validation(String::from_str("Invalid generate type")))
        }
    }

    /// The description of an audience given to the model.
    pub fn target_description(&self, target: &Targeting) -> (r: String)
        ensures
            r@ == target_description(*target),
    {
        let age_from: u64 = match target.age_from {
            Some(a) => a as u64,
            None => 0,
        };
        let age_to: u64 = match target.age_to {
            Some(a) => a as u64,
            None => 160,
        };
        let mut r = String::from_str("Возраст от ");
        r.append(decimal_string(age_from).as_str());
        r.append(" до ");
        r.append(decimal_string(age_to).as_str());
        r.append(", в локации ");
        r.append(text_or_default(&target.location, "любой").as_str());
        r.append(", для гендера ");
        r.append(text_or_default(&target.gender, "любого").as_str());
        r
    }

    /// The system prompt for generating a body: the body prompt with every
    /// `{target}` replaced by the audience description.
    pub fn body_system_prompt(&self, target: &Targeting) -> (r: String)
        ensures
            r@ == text::replaced(
                self.system_prompt_for_generate_body@,
                target_placeholder(),
                target_description(*target),
            ),
    {
        let description = self.target_description(target);
        let placeholder = vec!['{', 't', 'a', 'r', 'g', 'e', 't', '}'];
        let prompt = chars_of(self.system_prompt_for_generate_body.as_str());
        string_of(&replace_all(&prompt, &placeholder, &chars_of(description.as_str())))
    }
}

} // verus!
