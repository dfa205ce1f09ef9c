//! The handler of an observer's connection.
use crate::formater::{
    spec_bct_text, spec_id_text, spec_level_text, spec_pin_text, spec_resource_text,
    spec_uvec_text, BctFormat, IdFormat, LevelFormat, PinFormat, ResourceFormat, UVecFormat,
};
use crate::handler::command::{CommandHandler, CommandRes, CommandResView, Handler};
use crate::protocol::{
    parse_prefixed_id, spec_parse_prefixed_id, BctResponse, EventType, EventTypeView, GUIAction,
    GUIResponse, GUIResponseView, GameEvent, HasId, Id, ServerResponse, ServerResponseView,
    SharedAction,
};
use crate::text::{
    decimal, is_text, parse_u64, push_bytes, push_decimal, push_text, spec_parse_u64,
    spec_split_command, spec_trim, spec_words, split_command, split_words, text, text_bytes, trim,
    views,
};
use crate::vec2::Vec2;
use vstd::prelude::*;

verus! {

/// The request that an observer's verb and arguments stand for. `msz`, `mct`, `tna`
/// and `sgt` take no argument; `bct` takes two numbers; `ppo`, `plv` and `pin` take a
/// handle, with or without `#`; `sst` takes a number. A known verb with other
/// arguments is reported as a bad parameter, an unknown verb as an unknown command.
pub open spec fn spec_gui_action(cmd_name: Seq<u8>, args: Seq<u8>) -> GUIAction {
    let bad = GUIAction::Shared(SharedAction::InvalidParameters);
    if cmd_name == text("msz") {
        if args.len() == 0 {
            GUIAction::Msz
        } else {
            bad
        }
    } else if cmd_name == text("bct") {
        let parts = spec_words(args);
        if parts.len() == 2 {
            match (spec_parse_u64(parts[0]), spec_parse_u64(parts[1])) {
                (Some(x), Some(y)) => GUIAction::Bct(Vec2 { x, y }),
                _ => bad,
            }
        } else {
            bad
        }
    } else if cmd_name == text("mct") {
        if args.len() == 0 {
            GUIAction::Mct
        } else {
            bad
        }
    } else if cmd_name == text("tna") {
        if args.len() == 0 {
            GUIAction::Tna
        } else {
            bad
        }
    } else if cmd_name == text("ppo") {
        match spec_parse_prefixed_id(args, 35) {
            Some(id) => GUIAction::Ppo(id),
            None => bad,
        }
    } else if cmd_name == text("plv") {
        match spec_parse_prefixed_id(args, 35) {
            Some(id) => GUIAction::Plv(id),
            None => bad,
        }
    } else if cmd_name == text("pin") {
        match spec_parse_prefixed_id(args, 35) {
            Some(id) => GUIAction::Pin(id),
            None => bad,
        }
    } else if cmd_name == text("sgt") {
        if args.len() == 0 {
            GUIAction::Sgt
        } else {
            bad
        }
    } else if cmd_name == text("sst") {
        match spec_parse_u64(spec_trim(args)) {
            Some(freq) => GUIAction::Sst(freq),
            None => bad,
        }
    } else {
        GUIAction::Shared(SharedAction::InvalidAction)
    }
}

/// One `bct` line for each cell.
pub open spec fn spec_mct_text(cells: Seq<BctResponse>) -> Seq<u8>
    decreases cells.len(),
{
    if cells.len() == 0 {
        Seq::empty()
    } else {
        spec_mct_text(cells.drop_last()) + spec_bct_text(cells.last()) + text("\n")
    }
}

/// One `tna` line for each name.
pub open spec fn spec_tna_lines(names: Seq<Seq<u8>>) -> Seq<u8>
    decreases names.len(),
{
    if names.len() == 0 {
        Seq::empty()
    } else {
        spec_tna_lines(names.drop_last()) + text("tna ") + names.last() + text("\n")
    }
}

/// The handles with spaces between them.
pub open spec fn spec_ids_text(ids: Seq<Id>) -> Seq<u8>
    decreases ids.len(),
{
    if ids.len() == 0 {
        Seq::empty()
    } else if ids.len() == 1 {
        spec_id_text(ids[0])
    } else {
        spec_ids_text(ids.drop_last()) + text(" ") + spec_id_text(ids.last())
    }
}

/// The text that an observer reads for an answer of the server. Handles carry `#`,
/// headings are the numbers 1 to 4, and the outcome of an incantation is 0 or 1. A
/// list of teams without a team is an empty line. The answer for an unknown command
/// is `suc`, and so is the plain `ok`, which observers are never sent.
pub open spec fn spec_gui_line(response: GUIResponseView) -> Seq<u8> {
    match response {
        GUIResponseView::Shared(_) => text("suc\n"),
        GUIResponseView::Sbp => text("sbp\n"),
        GUIResponseView::Msz(size) => text("msz ") + spec_uvec_text(size) + text("\n"),
        GUIResponseView::Bct(cell) => spec_bct_text(cell) + text("\n"),
        GUIResponseView::Mct(cells) => spec_mct_text(cells),
        GUIResponseView::Tna(names) => if names.len() == 0 {
            text("\n")
        } else {
            spec_tna_lines(names)
        },
        GUIResponseView::Pnw(id, pos, heading, level, team) => text("pnw ") + spec_id_text(id)
            + text(" ") + spec_uvec_text(pos) + text(" ") + decimal(heading.spec_number() as nat)
            + text(" ") + spec_level_text(level) + text(" ") + team + text("\n"),
        GUIResponseView::Ppo(id, pos, heading) => text("ppo ") + spec_id_text(id) + text(" ")
            + spec_uvec_text(pos) + text(" ") + decimal(heading.spec_number() as nat) + text("\n"),
        GUIResponseView::Plv(id, level) => text("plv ") + spec_id_text(id) + text(" ")
            + spec_level_text(level) + text("\n"),
        GUIResponseView::Pin(id, pos, bag) => spec_pin_text(id, pos, bag) + text("\n"),
        GUIResponseView::Pex(id) => text("pex ") + spec_id_text(id) + text("\n"),
        GUIResponseView::Pbc(id, words) => text("pbc ") + spec_id_text(id) + text(" ") + words
            + text("\n"),
        GUIResponseView::Pic(pos, level, players) => text("pic ") + spec_uvec_text(pos) + text(
            " ",
        ) + spec_level_text(level) + text(" ") + spec_ids_text(players) + text("\n"),
        GUIResponseView::Pie(pos, success) => text("pie ") + spec_uvec_text(pos) + text(" ")
            + decimal(
            if success {
                1nat
            } else {
                0nat
            },
        ) + text("\n"),
        GUIResponseView::Pfk(id) => text("pfk ") + spec_id_text(id) + text("\n"),
        GUIResponseView::Pdr(id, resource) => text("pdr ") + spec_id_text(id) + text(" ")
            + spec_resource_text(resource) + text("\n"),
        GUIResponseView::Pgt(id, resource) => text("pgt ") + spec_id_text(id) + text(" ")
            + spec_resource_text(resource) + text("\n"),
        GUIResponseView::Pdi(id) => text("pdi ") + spec_id_text(id) + text("\n"),
        GUIResponseView::Enw(egg, player, pos) => text("enw ") + spec_id_text(egg) + text(" ")
            + spec_id_text(player) + text(" ") + spec_uvec_text(pos) + text("\n"),
        GUIResponseView::Ebo(egg) => text("ebo ") + spec_id_text(egg) + text("\n"),
        GUIResponseView::Edi(egg) => text("edi ") + spec_id_text(egg) + text("\n"),
        GUIResponseView::Sgt(freq) => text("sgt ") + decimal(freq as nat) + text("\n"),
        GUIResponseView::Sst(freq) => text("sst ") + decimal(freq as nat) + text("\n"),
        GUIResponseView::Seg(team) => text("seg ") + team + text("\n"),
        GUIResponseView::Smg(words) => text("smg ") + words + text("\n"),
    }
}

/// What the handler of an observer makes of an answer: an answer for observers is
/// spelled out, and an answer meant for another kind of connection is spelled `suc`.
pub open spec fn spec_gui_handle(response: ServerResponseView) -> CommandResView {
    match response {
        ServerResponseView::Gui(answer) => CommandResView::Response(spec_gui_line(answer)),
        _ => CommandResView::Response(text("suc\n")),
    }
}

/// The handler of an observer's connection.
pub struct GraphicHandler(pub Handler);

impl GraphicHandler {
    /// The handler of the connection `id`.
    pub fn new(id: u64) -> (handler: Self)
        ensures
            handler.0.id == id,
    {
        GraphicHandler(Handler { id })
    }
}

impl HasId for GraphicHandler {
    open spec fn spec_id(&self) -> Id {
        self.0.id
    }

    fn id(&self) -> (id: Id) {
        self.0.id
    }
}

/// Appends `verb`, a handle and a line feed to `out`.
fn push_id_line(out: &mut Vec<u8>, verb: &str, id: Id)
    ensures
        final(out)@ == old(out)@ + text(verb) + spec_id_text(id) + text("\n"),
{
    push_text(out, verb);
    IdFormat(&id).fmt(out);
    push_text(out, "\n");
    assert(out@ =~= old(out)@ + text(verb) + spec_id_text(id) + text("\n"));
}

/// Appends `verb`, a number and a line feed to `out`.
fn push_number_line(out: &mut Vec<u8>, verb: &str, number: u64)
    ensures
        final(out)@ == old(out)@ + text(verb) + decimal(number as nat) + text("\n"),
{
    push_text(out, verb);
    push_decimal(out, number);
    push_text(out, "\n");
    assert(out@ =~= old(out)@ + text(verb) + decimal(number as nat) + text("\n"));
}

/// Appends `verb`, some words and a line feed to `out`.
fn push_words_line(out: &mut Vec<u8>, verb: &str, words: &[u8])
    ensures
        final(out)@ == old(out)@ + text(verb) + words@ + text("\n"),
{
    push_text(out, verb);
    push_bytes(out, words);
    push_text(out, "\n");
    assert(out@ =~= old(out)@ + text(verb) + words@ + text("\n"));
}

/// Appends one `bct` line for each cell to `out`.
fn push_mct(out: &mut Vec<u8>, cells: &Vec<BctResponse>)
    ensures
        final(out)@ == old(out)@ + spec_mct_text(cells@),
{
    let mut i: usize = 0;
    assert(cells@.subrange(0, 0) =~= Seq::<BctResponse>::empty());
    assert(out@ =~= old(out)@ + spec_mct_text(cells@.subrange(0, 0)));
    while i < cells.len()
        invariant
            i <= cells.len(),
            out@ == old(out)@ + spec_mct_text(cells@.subrange(0, i as int)),
        decreases cells.len() - i,
    {
        assert(cells@.subrange(0, i + 1).drop_last() =~= cells@.subrange(0, i as int));
        BctFormat(&cells[i]).fmt(out);
        push_text(out, "\n");
        i += 1;
        assert(out@ =~= old(out)@ + spec_mct_text(cells@.subrange(0, i as int)));
    }
    assert(cells@.subrange(0, i as int) =~= cells@);
}

/// Appends one `tna` line for each name to `out`.
fn push_tna(out: &mut Vec<u8>, names: &Vec<Vec<u8>>)
    ensures
        final(out)@ == old(out)@ + spec_tna_lines(views(names@)),
{
    let mut i: usize = 0;
    let ghost all = views(names@);
    assert(all.subrange(0, 0) =~= Seq::<Seq<u8>>::empty());
    assert(out@ =~= old(out)@ + spec_tna_lines(all.subrange(0, 0)));
    while i < names.len()
        invariant
            i <= names.len(),
            all == views(names@),
            out@ == old(out)@ + spec_tna_lines(all.subrange(0, i as int)),
        decreases names.len() - i,
    {
        assert(all.subrange(0, i + 1).drop_last() =~= all.subrange(0, i as int));
        assert(all.subrange(0, i + 1).last() == names@[i as int]@);
        push_text(out, "tna ");
        push_bytes(out, names[i].as_slice());
        push_text(out, "\n");
        i += 1;
        assert(out@ =~= old(out)@ + spec_tna_lines(all.subrange(0, i as int)));
    }
    assert(all.subrange(0, i as int) =~= all);
}

/// Appends the handles, with spaces between them, to `out`.
fn push_ids(out: &mut Vec<u8>, ids: &Vec<Id>)
    ensures
        final(out)@ == old(out)@ + spec_ids_text(ids@),
{
    let mut i: usize = 0;
    assert(ids@.subrange(0, 0) =~= Seq::<Id>::empty());
    assert(out@ =~= old(out)@ + spec_ids_text(ids@.subrange(0, 0)));
    while i < ids.len()
        invariant
            i <= ids.len(),
            out@ == old(out)@ + spec_ids_text(ids@.subrange(0, i as int)),
        decreases ids.len() - i,
    {
        let ghost upto = ids@.subrange(0, i + 1);
        assert(upto.drop_last() =~= ids@.subrange(0, i as int));
        assert(upto.last() == ids@[i as int]);
        if i > 0 {
            push_text(out, " ");
        } else {
            assert(upto[0] == ids@[0]);
        }
        IdFormat(&ids[i]).fmt(out);
        i += 1;
        assert(out@ =~= old(out)@ + spec_ids_text(upto));
    }
    assert(ids@.subrange(0, i as int) =~= ids@);
}

/// Spells an answer for observers.
pub fn gui_line(response: &GUIResponse) -> (line: Vec<u8>)
    ensures
        line@ == spec_gui_line(response@),
{
    let mut out: Vec<u8> = Vec::new();
    match response {
        GUIResponse::Shared(_) => {
            push_text(&mut out, "suc\n");
        },
        GUIResponse::Sbp => {
            push_text(&mut out, "sbp\n");
        },
        GUIResponse::Msz(size) => {
            push_text(&mut out, "msz ");
            UVecFormat(size).fmt(&mut out);
            push_text(&mut out, "\n");
        },
        GUIResponse::Bct(cell) => {
            BctFormat(cell).fmt(&mut out);
            push_text(&mut out, "\n");
        },
        GUIResponse::Mct(cells) => {
            push_mct(&mut out, cells);
        },
        GUIResponse::Tna(names) => {
            if names.len() == 0 {
                push_text(&mut out, "\n");
            } else {
                push_tna(&mut out, names);
            }
        },
        GUIResponse::Pnw(id, pos, heading, level, team) => {
            push_text(&mut out, "pnw ");
            IdFormat(id).fmt(&mut out);
            push_text(&mut out, " ");
            UVecFormat(pos).fmt(&mut out);
            push_text(&mut out, " ");
            push_decimal(&mut out, heading.number() as u64);
            push_text(&mut out, " ");
            LevelFormat(level).fmt(&mut out);
            push_text(&mut out, " ");
            push_bytes(&mut out, team.as_slice());
            push_text(&mut out, "\n");
        },
        GUIResponse::Ppo(id, pos, heading) => {
            push_text(&mut out, "ppo ");
            IdFormat(id).fmt(&mut out);
            push_text(&mut out, " ");
            UVecFormat(pos).fmt(&mut out);
            push_text(&mut out, " ");
            push_decimal(&mut out, heading.number() as u64);
            push_text(&mut out, "\n");
        },
        GUIResponse::Plv(id, level) => {
            push_text(&mut out, "plv ");
            IdFormat(id).fmt(&mut out);
            push_text(&mut out, " ");
            LevelFormat(level).fmt(&mut out);
            push_text(&mut out, "\n");
        },
        GUIResponse::Pin(id, pos, bag) => {
            PinFormat(&(*id, *pos, *bag)).fmt(&mut out);
            push_text(&mut out, "\n");
        },
        GUIResponse::Pex(id) => {
            push_id_line(&mut out, "pex ", *id);
        },
        GUIResponse::Pbc(id, words) => {
            push_text(&mut out, "pbc ");
            IdFormat(id).fmt(&mut out);
            push_text(&mut out, " ");
            push_bytes(&mut out, words.as_slice());
            push_text(&mut out, "\n");
        },
        GUIResponse::Pic(pos, level, players) => {
            push_text(&mut out, "pic ");
            UVecFormat(pos).fmt(&mut out);
            push_text(&mut out, " ");
            LevelFormat(level).fmt(&mut out);
            push_text(&mut out, " ");
            push_ids(&mut out, players);
            push_text(&mut out, "\n");
        },
        GUIResponse::Pie(pos, success) => {
            push_text(&mut out, "pie ");
            UVecFormat(pos).fmt(&mut out);
            push_text(&mut out, " ");
            push_decimal(
                &mut out,
                if *success {
                    1
                } else {
                    0
                },
            );
            push_text(&mut out, "\n");
        },
        GUIResponse::Pfk(id) => {
            push_id_line(&mut out, "pfk ", *id);
        },
        GUIResponse::Pdr(id, resource) => {
            push_text(&mut out, "pdr ");
            IdFormat(id).fmt(&mut out);
            push_text(&mut out, " ");
            ResourceFormat(resource).fmt(&mut out);
            push_text(&mut out, "\n");
        },
        GUIResponse::Pgt(id, resource) => {
            push_text(&mut out, "pgt ");
            IdFormat(id).fmt(&mut out);
            push_text(&mut out, " ");
            ResourceFormat(resource).fmt(&mut out);
            push_text(&mut out, "\n");
        },
        GUIResponse::Pdi(id) => {
            push_id_line(&mut out, "pdi ", *id);
        },
        GUIResponse::Enw(egg, player, pos) => {
            push_text(&mut out, "enw ");
            IdFormat(egg).fmt(&mut out);
            push_text(&mut out, " ");
            IdFormat(player).fmt(&mut out);
            push_text(&mut out, " ");
            UVecFormat(pos).fmt(&mut out);
            push_text(&mut out, "\n");
        },
        GUIResponse::Ebo(egg) => {
            push_id_line(&mut out, "ebo ", *egg);
        },
        GUIResponse::Edi(egg) => {
            push_id_line(&mut out, "edi ", *egg);
        },
        GUIResponse::Sgt(freq) => {
            push_number_line(&mut out, "sgt ", *freq);
        },
        GUIResponse::Sst(freq) => {
            push_number_line(&mut out, "sst ", *freq);
        },
        GUIResponse::Seg(team) => {
            push_words_line(&mut out, "seg ", team.as_slice());
        },
        GUIResponse::Smg(words) => {
            push_words_line(&mut out, "smg ", words.as_slice());
        },
    }
    assert(out@ =~= spec_gui_line(response@));
    out
}

impl CommandHandler for GraphicHandler {
    open spec fn spec_validate(&self, cmd_name: Seq<u8>, args: Seq<u8>) -> EventTypeView {
        EventTypeView::GUI(self.0.id, spec_gui_action(cmd_name, args))
    }

    open spec fn spec_parse(&self, line: Seq<u8>) -> EventTypeView {
        EventTypeView::GUI(
            self.0.id,
            spec_gui_action(spec_split_command(line).0, spec_split_command(line).1),
        )
    }

    open spec fn spec_handle(&self, response: ServerResponseView) -> CommandResView {
        spec_gui_handle(response)
    }

    open spec fn spec_shared(&self, action: SharedAction) -> EventTypeView {
        EventTypeView::GUI(self.0.id, GUIAction::Shared(action))
    }

    /// Reads a verb and its arguments by the grammar of the observers.
    fn validate_cmd(&self, cmd_name: &[u8], args: &[u8]) -> (event: EventType) {
        let bad = GUIAction::Shared(SharedAction::InvalidParameters);
        let action = if is_text(cmd_name, "msz") {
            if args.len() == 0 {
                GUIAction::Msz
            } else {
                bad
            }
        } else if is_text(cmd_name, "bct") {
            let parts = split_words(args);
            if parts.len() == 2 {
                assert(views(parts@)[0] == parts@[0]@ && views(parts@)[1] == parts@[1]@);
                match (parse_u64(parts[0].as_slice()), parse_u64(parts[1].as_slice())) {
                    (Some(x), Some(y)) => GUIAction::Bct(Vec2 { x, y }),
                    _ => bad,
                }
            } else {
                bad
            }
        } else if is_text(cmd_name, "mct") {
            if args.len() == 0 {
                GUIAction::Mct
            } else {
                bad
            }
        } else if is_text(cmd_name, "tna") {
            if args.len() == 0 {
                GUIAction::Tna
            } else {
                bad
            }
        } else if is_text(cmd_name, "ppo") {
            match parse_prefixed_id(args, 35) {
                Some(id) => GUIAction::Ppo(id),
                None => bad,
            }
        } else if is_text(cmd_name, "plv") {
            match parse_prefixed_id(args, 35) {
                Some(id) => GUIAction::Plv(id),
                None => bad,
            }
        } else if is_text(cmd_name, "pin") {
            match parse_prefixed_id(args, 35) {
                Some(id) => GUIAction::Pin(id),
                None => bad,
            }
        } else if is_text(cmd_name, "sgt") {
            if args.len() == 0 {
                GUIAction::Sgt
            } else {
                bad
            }
        } else if is_text(cmd_name, "sst") {
            match parse_u64(trim(args)) {
                Some(freq) => GUIAction::Sst(freq),
                None => bad,
            }
        } else {
            GUIAction::Shared(SharedAction::InvalidAction)
        };
        EventType::GUI(GameEvent { id: self.id(), action })
    }

    /// Cuts a line into verb and arguments and reads them.
    fn parse_command(&mut self, command: Vec<u8>) -> (event: EventType)
        ensures
            *final(self) == *old(self),
    {
        let parts = split_command(command.as_slice());
        self.validate_cmd(parts.0, parts.1)
    }

    /// Spells an answer of the server for an observer.
    fn handle_command(&mut self, command: ServerResponse) -> (result: CommandRes)
        ensures
            *final(self) == *old(self),
    {
        match command {
            ServerResponse::Gui(response) => CommandRes::Response(gui_line(&response)),
            ServerResponse::AI(_) => CommandRes::Response(text_bytes("suc\n")),
            ServerResponse::Pending(_) => CommandRes::Response(text_bytes("suc\n")),
        }
    }

    /// The request that reports `action` for this observer.
    fn create_shared_event(&self, action: SharedAction) -> (event: EventType) {
        EventType::GUI(GameEvent { id: self.id(), action: GUIAction::Shared(action) })
    }
}

} // verus!
