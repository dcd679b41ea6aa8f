//! The words that the router listens for and the texts that it answers with.

use vstd::prelude::*;
use vstd::string::*;

verus! {

/// The content that is answered with `pong_text`.
pub open spec fn ping_text() -> Seq<char> {
    "!ping"@
}

/// The answer to `ping_text`.
pub open spec fn pong_text() -> Seq<char> {
    "Pong!"@
}

/// The content that is answered with a greeting.
pub open spec fn hi_text() -> Seq<char> {
    "!hi"@
}

/// The character that a text command begins with.
pub open spec fn command_prefix() -> char {
    '/'
}

/// The greeting for the author of `hi_text`.
pub open spec fn greeting_text(author: Seq<char>) -> Seq<char> {
    "Ah, um caloroso 'oi' para você "@ + author
        + ", meu caro! Que prazer é receber uma saudação tão amigável. Espero que sua jornada pelo dia seja repleta de surpresas encantadoras e momentos dignos de contos épicos!"@
}

/// The welcome for a new member.
pub open spec fn welcome_text(display_name: Seq<char>) -> Seq<char> {
    "Seja muito bem-vindo "@ + display_name
        + ", nobre viajante! Sinta-se à vontade para adentrar este recinto e compartilhar suas histórias e experiências. Que nossos caminhos se cruzem de maneira alegre e que nossa amizade cresça como um tesouro raro encontrado em meio a vastas terras desconhecidas!"@
}

/// The diagnostic line for a gateway connection that is up.
pub open spec fn connected_line(bot_display_name: Seq<char>) -> Seq<char> {
    bot_display_name + " is connected!"@
}

/// The answer to `ping_text`.
pub fn pong() -> (text: String)
    ensures
        text@ == pong_text(),
{
    String::from_str("Pong!")
}

/// The greeting for `author`.
pub fn greeting(author: &str) -> (text: String)
    ensures
        text@ == greeting_text(author@),
{
    let mut text = String::from_str("Ah, um caloroso 'oi' para você ");
    text.append(author);
    text.append(
        ", meu caro! Que prazer é receber uma saudação tão amigável. Espero que sua jornada pelo dia seja repleta de surpresas encantadoras e momentos dignos de contos épicos!",
    );
    text
}

/// The welcome for the new member `display_name`.
pub fn welcome(display_name: &str) -> (text: String)
    ensures
        text@ == welcome_text(display_name@),
{
    let mut text = String::from_str("Seja muito bem-vindo ");
    text.append(display_name);
    text.append(
        ", nobre viajante! Sinta-se à vontade para adentrar este recinto e compartilhar suas histórias e experiências. Que nossos caminhos se cruzem de maneira alegre e que nossa amizade cresça como um tesouro raro encontrado em meio a vastas terras desconhecidas!",
    );
    text
}

/// The diagnostic line for a connection that is up under `bot_display_name`.
pub fn connected(bot_display_name: &str) -> (text: String)
    ensures
        text@ == connected_line(bot_display_name@),
{
    let mut text = String::from_str(bot_display_name);
    text.append(" is connected!");
    text
}

/// A greeting holds the name it greets, behind its opening words.
pub proof fn lemma_greeting_names_author(author: Seq<char>)
    ensures
        ({
            let at = "Ah, um caloroso 'oi' para você "@.len() as int;
            greeting_text(author).subrange(at, at + author.len()) == author
        }),
{
    let at = "Ah, um caloroso 'oi' para você "@.len() as int;
    assert(greeting_text(author).subrange(at, at + author.len()) =~= author);
}

/// A welcome holds the name it welcomes, behind its opening words.
pub proof fn lemma_welcome_names_member(display_name: Seq<char>)
    ensures
        ({
            let at = "Seja muito bem-vindo "@.len() as int;
            welcome_text(display_name).subrange(at, at + display_name.len()) == display_name
        }),
{
    let at = "Seja muito bem-vindo "@.len() as int;
    assert(welcome_text(display_name).subrange(at, at + display_name.len()) =~= display_name);
}

} // verus!
