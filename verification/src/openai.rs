//! The request and response shapes of the text-completion service, and the
//! fixed prompts sent to it. Building a request and reading the first
//! choice out of a reply are pure and verified; the HTTP call itself lives
//! outside the library.

use vstd::prelude::*;


verus! {

/// One chat message of a completion request or reply.
pub struct OpenAIMessage {
    pub role: String,
    pub content: String,
}

/// The body of a completion request.
pub struct OpenAIRequest {
    pub model: String,
    pub messages: Vec<OpenAIMessage>,
    pub max_tokens: u32,
}

/// One answer choice of a completion reply.
pub struct OpenAIChoice {
    pub message: OpenAIMessage,
}

/// The body of a completion reply.
pub struct OpenAIResponse {
    pub choices: Vec<OpenAIChoice>,
}

/// The single-turn completion request the cleaner sends: the fixed model,
/// one user message holding the prompt, and the given token budget.
pub fn build_openai_request(prompt: String, max_tokens: u32) -> (r: OpenAIRequest)
    ensures
        r.model@ == "gpt-4o-mini"@,
        r.messages@.len() == 1,
        r.messages@[0].role@ == "user"@,
        r.messages@[0].content == prompt,
        r.max_tokens == max_tokens,
{
    let mut messages: Vec<OpenAIMessage> = Vec::new();
    messages.push(OpenAIMessage { role: "user".to_owned(), content: prompt });
    OpenAIRequest { model: "gpt-4o-mini".to_owned(), messages, max_tokens }
}

/// The content of the first answer choice, if the reply holds any.
pub fn first_choice_content(resp: &OpenAIResponse) -> (r: Option<String>)
    ensures
        match r {
            Some(c) => resp.choices@.len() > 0 && c@ == resp.choices@[0].message.content@,
            None => resp.choices@.len() == 0,
        },
{
    if resp.choices.len() > 0 {
        Some(resp.choices[0].message.content.clone())
    } else {
        None
    }
}

/// The instruction put before raw lyrics when the AI cleaner is asked to
/// strip page furniture.
pub open spec fn lyrics_prompt_spec(raw: Seq<char>) -> Seq<char> {
    "Clean and format this text. Remove any web page elements like headers, footers, contributor names, 'Embed' text, navigation elements, advertisements, or metadata. Keep only the main content with proper structure and formatting. Preserve line breaks and spacing that are part of the content structure. Return ONLY the cleaned text.\n\n"@
        + raw
}

/// Embeds raw lyrics in the fixed cleaning instruction.
pub fn build_lyrics_prompt(raw: &str) -> (r: String)
    ensures
        r@ == lyrics_prompt_spec(raw@),
{
    let mut r: String =
        "Clean and format this text. Remove any web page elements like headers, footers, contributor names, 'Embed' text, navigation elements, advertisements, or metadata. Keep only the main content with proper structure and formatting. Preserve line breaks and spacing that are part of the content structure. Return ONLY the cleaned text.\n\n".to_owned();
    r.append(raw);
    r
}

/// The fixed prompt asking for a brief artist summary.
pub open spec fn artist_prompt_spec(artist: Seq<char>) -> Seq<char> {
    "Provide a brief, 2-3 paragraph summary about the music artist/band '"@ + artist
        + "'. Include their genre, notable achievements, and impact on music. Keep it concise and informative."@
}

/// Builds the artist-summary prompt.
pub fn build_artist_prompt(artist: &str) -> (r: String)
    ensures
        r@ == artist_prompt_spec(artist@),
{
    let mut r: String = "Provide a brief, 2-3 paragraph summary about the music artist/band '".to_owned();
    r.append(artist);
    r.append(
        "'. Include their genre, notable achievements, and impact on music. Keep it concise and informative.",
    );
    r
}

/// The fixed prompt asking for a brief song analysis.
pub open spec fn song_prompt_spec(title: Seq<char>, artist: Seq<char>) -> Seq<char> {
    "Provide a brief analysis of the song '"@ + title + "' by "@ + artist
        + ". Focus on its themes, meaning, and musical significance. Keep it to 2-3 paragraphs."@
}

/// Builds the song-context prompt.
pub fn build_song_prompt(title: &str, artist: &str) -> (r: String)
    ensures
        r@ == song_prompt_spec(title@, artist@),
{
    let mut r: String = "Provide a brief analysis of the song '".to_owned();
    r.append(title);
    r.append("' by ");
    r.append(artist);
    r.append(". Focus on its themes, meaning, and musical significance. Keep it to 2-3 paragraphs.");
    r
}

} // verus!
