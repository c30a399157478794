//! The application's user-facing strings in Spanish and English.
//!
//! A flat table of `(key, spanish, english)` entries with a verified
//! last-entry-wins lookup.  The string contents themselves are display
//! glue; the contracts pin the lookup and the language switch.

use vstd::prelude::*;

use crate::text::str_eq;
use vstd::string::StrSliceExecFns;

verus! {

/// Display language of the application.
#[derive(Debug, Clone, Copy, PartialEq, Eq, Structural)]
pub enum Language {
    Spanish,
    English,
}

impl Language {
    /// The short locale code of the language.
    pub open spec fn spec_code(self) -> Seq<char> {
        match self {
            Language::Spanish => "es"@,
            Language::English => "en"@,
        }
    }

    /// The language's own name for itself.
    pub open spec fn spec_name(self) -> Seq<char> {
        match self {
            Language::Spanish => "Español"@,
            Language::English => "English"@,
        }
    }

    /// The language of a locale code: a code opening with `en` is
    /// English, anything else (including every `es` form) is Spanish.
    pub open spec fn spec_from_code(code: Seq<char>) -> Language {
        if code.len() >= 2 && code[0] == 'e' && code[1] == 'n' {
            Language::English
        } else {
            Language::Spanish
        }
    }

    /// Detect the language from a locale code such as `en_US` or
    /// `es_MX`; Spanish is the fallback.
    pub fn from_code(code: &str) -> (r: Language)
        ensures
            r == Language::spec_from_code(code@),
    {
        let n = code.unicode_len();
        if n >= 2 && code.get_char(0) == 'e' && code.get_char(1) == 'n' {
            Language::English
        } else {
            Language::Spanish
        }
    }

    pub fn code(&self) -> (r: &'static str)
        ensures
            r@ == self.spec_code(),
    {
        match self {
            Language::Spanish => "es",
            Language::English => "en",
        }
    }

    pub fn name(&self) -> (r: &'static str)
        ensures
            r@ == self.spec_name(),
    {
        match self {
            Language::Spanish => "Español",
            Language::English => "English",
        }
    }
}

/// Model of the translation store: the language and the table contents
/// as character sequences.
pub struct I18nModel {
    pub language: Language,
    pub table: Seq<(Seq<char>, Seq<char>, Seq<char>)>,
}

/// Translation store: a current language and the `(key, spanish,
/// english)` table.
#[derive(Debug, Clone)]
pub struct I18n {
    language: Language,
    translations: Vec<(&'static str, &'static str, &'static str)>,
}

pub open spec fn table_model(v: Seq<(&str, &str, &str)>) -> Seq<(Seq<char>, Seq<char>, Seq<char>)> {
    Seq::new(v.len(), |i: int| (v[i].0@, v[i].1@, v[i].2@))
}

/// The `(spanish, english)` pair stored under `key`; when a key was
/// inserted twice, the later entry wins.
pub open spec fn lookup(
    table: Seq<(Seq<char>, Seq<char>, Seq<char>)>,
    key: Seq<char>,
) -> Option<(Seq<char>, Seq<char>)>
    decreases table.len(),
{
    if table.len() == 0 {
        None
    } else if table.last().0 == key {
        Some((table.last().1, table.last().2))
    } else {
        lookup(table.drop_last(), key)
    }
}

impl View for I18n {
    type V = I18nModel;

    closed spec fn view(&self) -> I18nModel {
        I18nModel { language: self.language, table: table_model(self.translations@) }
    }
}

impl I18n {
    /// Create the store with its full built-in table and the given
    /// current language.
    pub fn new(language: Language) -> (r: I18n)
        ensures
            r@.language == language,
    {
        I18n { language, translations: Self::translation_table() }
    }

    /// The translated string for `key` in the current language; an
    /// unknown key is returned as it is.
    pub fn t(&self, key: &str) -> (r: String)
        ensures
            r@ == (match lookup(self@.table, key@) {
                Some(tr) => if self@.language is Spanish {
                    tr.0
                } else {
                    tr.1
                },
                None => key@,
            }),
    {
        let ghost tm = table_model(self.translations@);
        let mut i: usize = self.translations.len();
        proof {
            assert(tm.take(i as int) =~= tm);
        }
        loop
            invariant
                i <= self.translations@.len(),
                tm == table_model(self.translations@),
                lookup(self@.table, key@) == lookup(tm.take(i as int), key@),
            decreases i,
        {
            if i == 0 {
                return key.to_owned();
            }
            i = i - 1;
            let entry = self.translations[i];
            if str_eq(entry.0, key) {
                proof {
                    assert(tm.take(i + 1 as int).last() == tm[i as int]);
                }
                match self.language {
                    Language::Spanish => {
                        return entry.1.to_owned();
                    },
                    Language::English => {
                        return entry.2.to_owned();
                    },
                }
            }
            proof {
                assert(tm.take(i + 1 as int).last() == tm[i as int]);
                assert(tm.take(i + 1 as int).drop_last() =~= tm.take(i as int));
            }
        }
    }

    /// Switch the current language; the table is unchanged.
    pub fn set_language(&mut self, language: Language)
        ensures
            final(self)@.language == language,
            final(self)@.table == old(self)@.table,
    {
        self.language = language;
    }

    pub fn current_language(&self) -> (r: Language)
        ensures
            r == self@.language,
    {
        self.language
    }

    /// Both translations stored under `key`, Spanish first.
    pub fn all_translations(&self, key: &str) -> (r: Option<(String, String)>)
        ensures
            match r {
                Some(p) => lookup(self@.table, key@) == Some((p.0@, p.1@)),
                None => lookup(self@.table, key@) is None,
            },
    {
        let ghost tm = table_model(self.translations@);
        let mut i: usize = self.translations.len();
        proof {
            assert(tm.take(i as int) =~= tm);
        }
        loop
            invariant
                i <= self.translations@.len(),
                tm == table_model(self.translations@),
                lookup(self@.table, key@) == lookup(tm.take(i as int), key@),
            decreases i,
        {
            if i == 0 {
                return None;
            }
            i = i - 1;
            let entry = self.translations[i];
            if str_eq(entry.0, key) {
                proof {
                    assert(tm.take(i + 1 as int).last() == tm[i as int]);
                }
                return Some((entry.1.to_owned(), entry.2.to_owned()));
            }
            proof {
                assert(tm.take(i + 1 as int).last() == tm[i as int]);
                assert(tm.take(i + 1 as int).drop_last() =~= tm.take(i as int));
            }
        }
    }

    /// The built-in `(key, spanish, english)` table.
    fn translation_table() -> Vec<(&'static str, &'static str, &'static str)> {
        let mut t: Vec<(&'static str, &'static str, &'static str)> = Vec::new();
        t.push(("app_title", "NotNative", "NotNative"));
        t.push(("untitled", "Sin título", "Untitled"));
        t.push(("notes", "Notas", "Notes"));
        t.push(("new_note", "Nueva nota", "New Note"));
        t.push(("search", "Buscar", "Search"));
        t.push(("search_notes", "Buscar (Ctrl+F)", "Search (Ctrl+F)"));
        t.push(("search_placeholder", "Buscar notas...", "Search notes..."));
        t.push(("show_hide_notes", "Mostrar/ocultar lista de notas", "Show/hide notes list"));
        t.push(("preferences", "Preferencias", "Preferences"));
        t.push(("keyboard_shortcuts", "Atajos de teclado", "Keyboard Shortcuts"));
        t.push(("about", "Acerca de", "About"));
        t.push(("settings", "Ajustes", "Settings"));
        t.push(("tags", "Tags", "Tags"));
        t.push(("tags_note", "Tags de la nota", "Note tags"));
        t.push(("no_tags", "No hay tags", "No tags"));
        t.push(("search_tag", "Buscar notas con este tag", "Search notes with this tag"));
        t.push(("remove_tag", "Eliminar tag", "Remove tag"));
        t.push(("close", "Cerrar", "Close"));
        t.push(("create_note_title", "Nueva nota", "New Note"));
        t.push(("note_name_hint", "ejemplo: proyectos/nueva-idea", "example: projects/new-idea"));
        t.push(("create_folder_hint", "Usa '/' para crear en carpetas", "Use '/' to create in folders"));
        t.push(("create", "Crear", "Create"));
        t.push(("cancel", "Cancelar", "Cancel"));
        t.push(("rename", "Renombrar", "Rename"));
        t.push(("delete", "Eliminar", "Delete"));
        t.push(("change_icon", "Cambiar icono", "Change icon"));
        t.push(("view_history", "Ver historial", "View history"));
        t.push(("open_in_file_manager", "Abrir en explorador", "Open in file manager"));
        t.push(("confirm_delete", "¿Estás seguro de eliminar", "Are you sure you want to delete"));
        t.push(("theme", "Tema", "Theme"));
        t.push(("theme_sync", "La aplicación sincroniza automáticamente con el tema Omarchy", "The app automatically syncs with Omarchy theme"));
        t.push(("markdown_rendering", "Renderizado Markdown", "Markdown Rendering"));
        t.push(("markdown_enabled", "Activado por defecto en modo Normal", "Enabled by default in Normal mode"));
        t.push(("language", "Idioma", "Language"));
        t.push(("language_description", "Elige el idioma de la interfaz", "Choose the interface language"));
        t.push(("restart_required", "Se requiere reiniciar la aplicación", "Application restart required"));
        t.push(("start_in_background", "Iniciar en segundo plano", "Start in background"));
        t.push(("start_in_background_desc", "Iniciar la aplicación minimizada en la bandeja del sistema", "Start the application minimized to the system tray"));
        t.push(("format_toolbar", "Barra de formato", "Format Toolbar"));
        t.push(("format_toolbar_desc", "Mostrar barra de herramientas de formato en modo edición", "Show formatting toolbar in edit mode"));
        t.push(("workspace", "Directorio de trabajo", "Workspace"));
        t.push(("workspace_description", "Ubicación donde se guardan las notas y recursos", "Location where notes and resources are saved"));
        t.push(("open_workspace_folder", "Abrir carpeta de trabajo", "Open workspace folder"));
        t.push(("change_workspace", "Cambiar ubicación", "Change location"));
        t.push(("workspace_location", "Ubicación", "Location"));
        t.push(("select_workspace_folder", "Seleccionar carpeta de trabajo", "Select workspace folder"));
        t.push(("select", "Seleccionar", "Select"));
        t.push(("audio_output", "Salida de audio", "Audio Output"));
        t.push(("audio_output_description", "Seleccionar dispositivo de salida de audio", "Select audio output device"));
        t.push(("audio_output_default", "Por defecto del sistema", "System default"));
        t.push(("audio_output_detecting", "Detectando dispositivos...", "Detecting devices..."));
        t.push(("audio_output_changed", "Salida de audio cambiada", "Audio output changed"));
        t.push(("audio_output_error", "Error cambiando salida de audio", "Error changing audio output"));
        t.push(("shortcuts_general", "General", "General"));
        t.push(("shortcuts_modes", "Modos de edición", "Editing Modes"));
        t.push(("shortcuts_navigation", "Navegación", "Navigation"));
        t.push(("shortcuts_editing", "Edición", "Editing"));
        t.push(("shortcut_new_note", "Nueva nota", "New note"));
        t.push(("shortcut_save", "Guardar nota", "Save note"));
        t.push(("shortcut_search", "Buscar notas", "Search notes"));
        t.push(("shortcut_toggle_sidebar", "Alternar sidebar", "Toggle sidebar"));
        t.push(("shortcut_escape", "Volver al editor", "Back to editor"));
        t.push(("shortcut_insert_mode", "Modo Insert", "Insert mode"));
        t.push(("shortcut_normal_mode", "Modo Normal", "Normal mode"));
        t.push(("shortcut_command_mode", "Modo Command", "Command mode"));
        t.push(("shortcut_visual_mode", "Modo Visual", "Visual mode"));
        t.push(("shortcut_movement", "Izquierda/Abajo/Arriba/Derecha", "Left/Down/Up/Right"));
        t.push(("shortcut_next_word", "Siguiente palabra", "Next word"));
        t.push(("shortcut_prev_word", "Palabra anterior", "Previous word"));
        t.push(("shortcut_line_start", "Inicio de línea", "Start of line"));
        t.push(("shortcut_line_end", "Fin de línea", "End of line"));
        t.push(("shortcut_doc_start", "Inicio del documento", "Start of document"));
        t.push(("shortcut_doc_end", "Fin del documento", "End of document"));
        t.push(("shortcut_delete_char", "Eliminar carácter", "Delete character"));
        t.push(("shortcut_delete_line", "Eliminar línea", "Delete line"));
        t.push(("shortcut_undo", "Deshacer", "Undo"));
        t.push(("shortcut_redo", "Rehacer", "Redo"));
        t.push(("app_description", "Editor de notas markdown con estilo vim", "Vim-style markdown note editor"));
        t.push(("website", "Sitio web", "Website"));
        t.push(("authors", "Autores", "Authors"));
        t.push(("version", "Versión", "Version"));
        t.push(("license", "Licencia", "License"));
        t.push(("no_results", "No se encontraron resultados para", "No results found for"));
        t.push(("searching", "Buscando", "Searching"));
        t.push(("lines", "líneas", "lines"));
        t.push(("words", "palabras", "words"));
        t.push(("characters", "caracteres", "characters"));
        t.push(("saved", "Guardado", "Saved"));
        t.push(("unsaved_changes", "Cambios sin guardar", "Unsaved changes"));
        t.push(("note_created", "Nota creada", "Note created"));
        t.push(("note_deleted", "Nota eliminada", "Note deleted"));
        t.push(("note_renamed", "Nota renombrada", "Note renamed"));
        t.push(("error", "Error", "Error"));
        t.push(("success", "Éxito", "Success"));
        t.push(("image_viewer", "Visor de imagen", "Image Viewer"));
        t.push(("open_file_location", "Abrir ubicación", "Open Location"));
        t.push(("todos", "TODOs", "TODOs"));
        t.push(("todos_note", "TODOs de la nota", "Note TODOs"));
        t.push(("no_todos", "No hay TODOs en esta nota", "No TODOs in this note"));
        t.push(("completed", "completo", "completed"));
        t.push(("no_section", "Sin sección", "No section"));
        t.push(("transcribe_youtube", "¿Transcribir video de YouTube?", "Transcribe YouTube video?"));
        t.push(("youtube_detected", "Se ha detectado un enlace de YouTube", "A YouTube link has been detected"));
        t.push(("only_link", "Solo enlace", "Only link"));
        t.push(("transcribe_and_insert", "Transcribir e insertar", "Transcribe and insert"));
        t.push(("downloading_transcript", "Descargando transcripción...", "Downloading transcript..."));
        t.push(("loading_transcript", "Cargando transcripción...", "Loading transcript..."));
        t.push(("transcript_error", "Error al obtener transcripción", "Error fetching transcript"));
        t.push(("transcript_unavailable", "Transcripción no disponible para este video", "Transcript unavailable for this video"));
        t.push(("transcript_section", "📝 Transcripción", "📝 Transcript"));
        t.push(("music_search_placeholder", "Buscar música en YouTube...", "Search music on YouTube..."));
        t.push(("no_music_playing", "No hay música reproduciéndose", "No music playing"));
        t.push(("music_play_pause", "Reproducir/Pausar (Espacio)", "Play/Pause (Space)"));
        t.push(("music_stop", "Detener", "Stop"));
        t.push(("music_seek_back", "Retroceder 5s", "Seek back 5s"));
        t.push(("music_seek_forward", "Avanzar 5s", "Seek forward 5s"));
        t.push(("music_volume_down", "Bajar volumen", "Lower volume"));
        t.push(("music_volume_up", "Subir volumen", "Raise volume"));
        t.push(("music_previous_song", "Canción anterior", "Previous song"));
        t.push(("music_next_song", "Siguiente canción", "Next song"));
        t.push(("music_repeat_off", "Repetir: OFF", "Repeat: OFF"));
        t.push(("music_repeat_one", "Repetir: UNA", "Repeat: ONE"));
        t.push(("music_repeat_all", "Repetir: TODAS", "Repeat: ALL"));
        t.push(("music_shuffle_off", "Aleatorio: OFF", "Shuffle: OFF"));
        t.push(("music_shuffle_on", "Aleatorio: ON", "Shuffle: ON"));
        t.push(("music_manage_playlists", "Gestionar playlists", "Manage playlists"));
        t.push(("music_playback_queue", "Cola de reproducción", "Playback queue"));
        t.push(("music_loading", "Cargando...", "Loading..."));
        t.push(("music_add_to_queue", "Añadir a cola", "Add to queue"));
        t.push(("music_remove_from_queue", "Eliminar de cola", "Remove from queue"));
        t.push(("music_new_playlist", "Nueva playlist", "New playlist"));
        t.push(("music_load_playlist", "Cargar playlist", "Load playlist"));
        t.push(("music_save_playlist", "Guardar playlist", "Save playlist"));
        t.push(("music_playlist_name", "Nombre de la playlist", "Playlist name"));
        t.push(("tray_show_window", "Mostrar ventana", "Show window"));
        t.push(("tray_hide_window", "Ocultar ventana", "Hide window"));
        t.push(("tray_quit", "Salir", "Quit"));
        t.push(("ai_chat", "Chat IA", "AI Chat"));
        t.push(("chat_input_placeholder", "Escribe tu mensaje aquí...", "Type your message here..."));
        t.push(("chat_send", "Enviar", "Send"));
        t.push(("chat_model_default", "Modelo: OpenAI GPT-4", "Model: OpenAI GPT-4"));
        t.push(("chat_subtitle", "Combina tus notas con el asistente en tiempo real", "Combine your notes with the assistant in real time"));
        t.push(("chat_context", "Contexto", "Context"));
        t.push(("chat_attach_note", "Adjuntar nota actual", "Attach current note"));
        t.push(("chat_attach_note_dialog_title", "Adjuntar nota al contexto", "Attach note to context"));
        t.push(("chat_attach_button", "Adjuntar", "Attach"));
        t.push(("chat_clear_context", "Limpiar contexto", "Clear context"));
        t.push(("chat_clear_history", "Borrar historial", "Clear history"));
        t.push(("chat_clear_history_confirm_title", "¿Borrar todo el historial de chat?", "Delete all chat history?"));
        t.push(("chat_clear_history_confirm_message", "Esta acción eliminará permanentemente todo el historial de conversaciones guardado. No se puede deshacer.", "This action will permanently delete all saved conversation history. This cannot be undone."));
        t.push(("chat_history_cleared", "Historial borrado", "History cleared"));
        t.push(("chat_history_cleared_message", "Se ha eliminado todo el historial de conversaciones", "All conversation history has been deleted"));
        t.push(("chat_mode_agent", "Modo: Agente", "Mode: Agent"));
        t.push(("chat_mode_normal", "Modo: Normal", "Mode: Normal"));
        t.push(("chat_new_session", "Nueva sesión", "New Session"));
        t.push(("chat_mode_chat", "Modo: Chat", "Mode: Chat"));
        t.push(("chat_toggle_mode_tooltip", "Alternar: Modo Agente (con herramientas) / Chat Normal (sin herramientas)", "Toggle: Agent Mode (with tools) / Normal Chat (without tools)"));
        t.push(("chat_agent_thinking", "💭 Pensamiento", "💭 Thought"));
        t.push(("chat_agent_action", "🔧 Acción", "🔧 Action"));
        t.push(("chat_agent_observation", "👁️ Observación", "👁️ Observation"));
        t.push(("chat_agent_answer", "✅ Respuesta", "✅ Answer"));
        t.push(("music_player_title", "Reproductor de Música", "Music Player"));
        t.push(("ai_chat_placeholder", "Escribe un mensaje para el asistente IA...", "Type a message for the AI assistant..."));
        t.push(("ai_send_message", "Enviar mensaje", "Send message"));
        t.push(("ai_thinking", "Pensando...", "Thinking..."));
        t.push(("ai_model", "Modelo", "Model"));
        t.push(("ai_temperature", "Temperatura", "Temperature"));
        t.push(("ai_api_key", "API Key", "API Key"));
        t.push(("ai_openai", "OpenAI", "OpenAI"));
        t.push(("ai_openrouter", "OpenRouter", "OpenRouter"));
        t.push(("ai_api_key_placeholder", "Ingresa tu API key...", "Enter your API key..."));
        t.push(("ai_save", "Guardar", "Save"));
        t.push(("ai_cancel", "Cancelar", "Cancel"));
        t.push(("ai_no_key_configured", "No hay API key configurada", "No API key configured"));
        t.push(("ai_configure_key", "Configurar API key en Preferencias", "Configure API key in Preferences"));
        t.push(("ai_free_models", "═══ MODELOS GRATUITOS ═══", "═══ FREE MODELS ═══"));
        t.push(("ai_paid_models", "═══ MODELOS DE PAGO ═══", "═══ PAID MODELS ═══"));
        t.push(("mcp_note_created", "✓ Nota '{}' creada exitosamente", "✓ Note '{}' created successfully"));
        t.push(("mcp_note_read", "✓ Nota '{}' leída correctamente", "✓ Note '{}' read successfully"));
        t.push(("mcp_note_updated", "✓ Nota '{}' actualizada exitosamente", "✓ Note '{}' updated successfully"));
        t.push(("mcp_note_deleted", "✓ Nota '{}' eliminada exitosamente", "✓ Note '{}' deleted successfully"));
        t.push(("mcp_content_appended", "✓ Contenido agregado a '{}' exitosamente", "✓ Content appended to '{}' successfully"));
        t.push(("mcp_notes_found", "✓ {} notas encontradas", "✓ {} notes found"));
        t.push(("mcp_search_results", "✓ {} resultados para '{}'", "✓ {} results for '{}'"));
        t.push(("mcp_notes_with_tag", "✓ {} notas con tag #{}", "✓ {} notes with tag #{}"));
        t.push(("mcp_tags_found", "✓ {} tags encontrados", "✓ {} tags found"));
        t.push(("mcp_tags_added", "✓ Tags agregados a '{}'", "✓ Tags added to '{}'"));
        t.push(("mcp_note_renamed", "✓ Nota renombrada de '{}' a '{}'", "✓ Note renamed from '{}' to '{}'"));
        t.push(("mcp_note_duplicated", "✓ Nota '{}' duplicada como '{}'", "✓ Note '{}' duplicated as '{}'"));
        t.push(("mcp_folder_created", "✓ Carpeta '{}' creada exitosamente", "✓ Folder '{}' created successfully"));
        t.push(("mcp_note_not_found", "Nota '{}' no encontrada", "Note '{}' not found"));
        t.push(("mcp_folders_found", "✓ {} carpetas encontradas", "✓ {} folders found"));
        t.push(("reminders_title", "Recordatorios", "Reminders"));
        t.push(("reminders_new", "Nuevo recordatorio", "New reminder"));
        t.push(("reminders_pending", "Pendientes", "Pending"));
        t.push(("reminders_completed", "Completados", "Completed"));
        t.push(("reminders_all", "Todos", "All"));
        t.push(("reminder_complete", "Completar", "Complete"));
        t.push(("reminder_snooze", "Posponer", "Snooze"));
        t.push(("reminder_edit", "Editar", "Edit"));
        t.push(("reminder_delete", "Eliminar", "Delete"));
        t.push(("reminders_empty", "No hay recordatorios", "No reminders"));
        t.push(("reminder_priority_low", "Baja", "Low"));
        t.push(("reminder_priority_medium", "Media", "Medium"));
        t.push(("reminder_priority_high", "Alta", "High"));
        t.push(("reminder_priority_urgent", "Urgente", "Urgent"));
        t.push(("reminder_snooze_5min", "5 minutos", "5 minutes"));
        t.push(("reminder_snooze_15min", "15 minutos", "15 minutes"));
        t.push(("reminder_snooze_1hour", "1 hora", "1 hour"));
        t.push(("reminder_snooze_tomorrow", "Mañana", "Tomorrow"));
        t.push(("reminder_notification_title", "🔔 Recordatorio", "🔔 Reminder"));
        t.push(("reminder_create_title", "Crear recordatorio", "Create reminder"));
        t.push(("reminder_title_label", "Título", "Title"));
        t.push(("reminder_description_label", "Descripción", "Description"));
        t.push(("reminder_date_label", "Fecha y hora", "Date and time"));
        t.push(("reminder_priority_label", "Prioridad", "Priority"));
        t.push(("reminder_linked_note_label", "Nota vinculada", "Linked note"));
        t.push(("reminder_repeat_label", "Repetir", "Repeat"));
        t.push(("reminder_repeat_none", "No repetir", "Don't repeat"));
        t.push(("reminder_repeat_daily", "Diariamente", "Daily"));
        t.push(("reminder_repeat_weekly", "Semanalmente", "Weekly"));
        t.push(("reminder_repeat_monthly", "Mensualmente", "Monthly"));
        t.push(("no_reminders", "No hay recordatorios", "No reminders"));
        t.push(("reminders_count", "{} pendientes", "{} pending"));
        t.push(("reminder_overdue", "Vencido", "Overdue"));
        t.push(("reminder_today", "Hoy", "Today"));
        t.push(("reminder_tomorrow", "Mañana", "Tomorrow"));
        t.push(("reminder_created", "Recordatorio creado", "Reminder created"));
        t.push(("reminder_updated", "Recordatorio actualizado", "Reminder updated"));
        t.push(("reminder_deleted", "Recordatorio eliminado", "Reminder deleted"));
        t.push(("reminder_completed_msg", "Recordatorio completado", "Reminder completed"));
        t.push(("reminder_snoozed", "Recordatorio pospuesto", "Reminder snoozed"));
        t.push(("reminder_tooltip", "Recordatorios (Alt+R)", "Reminders (Alt+R)"));
        t.push(("mcp_create_reminder_desc", "Crea un nuevo recordatorio con fecha, hora y prioridad", "Create a new reminder with date, time and priority"));
        t.push(("mcp_list_reminders_desc", "Lista todos los recordatorios o filtra por estado", "List all reminders or filter by status"));
        t.push(("mcp_update_reminder_desc", "Actualiza un recordatorio existente", "Update an existing reminder"));
        t.push(("mcp_delete_reminder_desc", "Elimina un recordatorio", "Delete a reminder"));
        t.push(("mcp_snooze_reminder_desc", "Pospone un recordatorio por un tiempo específico", "Snooze a reminder for a specific time"));
        t.push(("mcp_complete_reminder_desc", "Marca un recordatorio como completado", "Mark a reminder as completed"));
        t.push(("mcp_reminder_title_desc", "Título del recordatorio", "Reminder title"));
        t.push(("mcp_reminder_date_desc", "Fecha y hora del recordatorio (ej: '2025-11-20 15:00', 'hoy 18:00', 'mañana')", "Reminder date and time (e.g: '2025-11-20 15:00', 'today 18:00', 'tomorrow')"));
        t.push(("quick_notes_title", "Quick Note", "Quick Note"));
        t.push(("quick_note_back_to_list", "Volver a la lista", "Back to list"));
        t.push(("quick_note_new", "Nueva quick note", "New quick note"));
        t.push(("quick_note_keep_visible", "Mantener visible", "Keep visible"));
        t.push(("quick_note_close", "Cerrar (Esc)", "Close (Esc)"));
        t.push(("quick_note_no_notes", "No hay quick notes aún", "No quick notes yet"));
        t.push(("quick_note_press_to_create", "Presiona + para crear una", "Press + to create one"));
        t.push(("quick_note_saved", "💾 Guardado", "💾 Saved"));
        t.push(("quick_note_unsaved", "● Sin guardar", "● Unsaved"));
        t.push(("quick_note_autosaved", "💾 Auto-guardado", "💾 Auto-saved"));
        t.push(("quick_note_shortcut_hint", "Ctrl+S: guardar | Esc: cerrar", "Ctrl+S: save | Esc: close"));
        t.push(("quick_note_created", "Quick note creada", "Quick note created"));
        t.push(("playlist_new", "🎵 Nueva", "🎵 New"));
        t.push(("playlist_save", "💾 Guardar", "💾 Save"));
        t.push(("playlist_clear", "🗑️ Limpiar", "🗑️ Clear"));
        t.push(("playlist_queue", "Cola de reproducción", "Playback queue"));
        t.push(("playlist_queue_empty", "Cola vacía", "Queue empty"));
        t.push(("playlist_saved_playlists", "Playlists guardadas", "Saved playlists"));
        t.push(("playlist_save_title", "Guardar Playlist", "Save Playlist"));
        t.push(("playlist_name_prompt", "Nombre de la playlist:", "Playlist name:"));
        t.push(("playlist_name_example", "ej: Música relajante", "e.g.: Relaxing music"));
        t.push(("playlist_no_loaded", "No hay playlist cargada", "No playlist loaded"));
        t.push(("playlist_no_saved", "No hay playlists guardadas", "No saved playlists"));
        t.push(("playlist_add_to", "Agregar a playlist", "Add to playlist"));
        t.push(("playlist_delete", "Eliminar playlist", "Delete playlist"));
        t.push(("play", "Reproducir", "Play"));
        t.push(("remove", "Eliminar", "Remove"));
        t.push(("searching_ellipsis", "🔄 Buscando...", "🔄 Searching..."));
        t.push(("no_results_found", "❌ No se encontraron resultados", "❌ No results found"));
        t.push(("found_relevant_notes", "Encontré {} notas relevantes:", "Found {} relevant notes:"));
        t.push(("semantic_results", "Resultados por similitud semántica", "Results by semantic similarity"));
        t.push(("ai_analyzing", "🔄 El asistente de IA está analizando los resultados...", "🔄 The AI assistant is analyzing the results..."));
        t.push(("assistant_response", "🧠 Respuesta del Asistente", "🧠 Assistant Response"));
        t.push(("images_filter", "Imágenes", "Images"));
        t.push(("no_models_found", "No se encontraron modelos", "No models found"));
        t.push(("semantic_search_title", "🧠 Búsqueda Semántica (Embeddings)", "🧠 Semantic Search (Embeddings)"));
        t.push(("semantic_search_description", "Configura embeddings para búsqueda por significado conceptual usando OpenRouter", "Configure embeddings for conceptual meaning search using OpenRouter"));
        t.push(("enable_embeddings", "Habilitar embeddings:", "Enable embeddings:"));
        t.push(("index_all_notes", "📄 Indexar todas las notas", "📄 Index all notes"));
        t.push(("indexing", "⏳ Indexando...", "⏳ Indexing..."));
        t.push(("indexing_completed", "Indexación completada", "Indexing completed"));
        t.push(("unknown_error", "Error desconocido", "Unknown error"));
        t.push(("estimated_cost", "Costo estimado: ~$0.01 por 10,000 notas", "Estimated cost: ~$0.01 per 10,000 notes"));
        t.push(("get_api_key_openrouter", "Obtener API key en OpenRouter", "Get API key on OpenRouter"));
        t.push(("status_active", "🟢 Activo", "🟢 Active"));
        t.push(("copy_url", "📋 Copiar URL", "📋 Copy URL"));
        t.push(("view_docs", "📖 Ver Documentación", "📖 View Documentation"));
        t.push(("copied", "✓ Copiado!", "✓ Copied!"));
        t.push(("you_label", "Tú", "You"));
        t.push(("no_notes_in_context", "Sin notas en contexto", "No notes in context"));
        t.push(("remove_from_context", "Remover del contexto", "Remove from context"));
        t.push(("operation_success", "✓ Operación exitosa", "✓ Operation successful"));
        t.push(("operation_failed", "✗ Operación fallida", "✗ Operation failed"));
        t.push(("youtube_unavailable", "Transcripción de YouTube no disponible actualmente...", "YouTube transcription not currently available..."));
        t.push(("music_player", "Reproductor de música", "Music Player"));
        t.push(("shortcut_open_note_search", "Abrir búsqueda de notas", "Open note search"));
        t.push(("shortcut_toggle_ai_chat", "Alternar chat IA", "Toggle AI chat"));
        t.push(("shortcut_delete_char_under", "Eliminar carácter bajo el cursor", "Delete character under cursor"));
        t.push(("shortcut_delete_line_complete", "Eliminar línea completa", "Delete entire line"));
        t.push(("shortcut_delete_prev_char", "Eliminar carácter anterior", "Delete previous character"));
        t.push(("shortcut_delete_next_char", "Eliminar carácter siguiente", "Delete next character"));
        t.push(("shortcut_new_line", "Nueva línea", "New line"));
        t.push(("shortcut_search_sidebar", "Búsqueda y Sidebar", "Search and Sidebar"));
        t.push(("shortcut_activate_search", "Activar búsqueda", "Activate search"));
        t.push(("shortcut_close_search", "Cerrar búsqueda / Volver al editor", "Close search / Back to editor"));
        t.push(("shortcut_open_music", "Abrir reproductor de música", "Open music player"));
        t.push(("shortcut_open_reminders", "Abrir recordatorios", "Open reminders"));
        t.push(("adding_content", "Añadiendo contenido...", "Adding content..."));
        t.push(("adding_tag", "Añadiendo etiqueta...", "Adding tag..."));
        t.push(("adding_tags", "Añadiendo etiquetas...", "Adding tags..."));
        t.push(("generating_index", "Generando índice...", "Generating index..."));
        t.push(("extracting_code", "Extrayendo código...", "Extracting code..."));
        t.push(("tooltip_show_hide_notes", "Mostrar/ocultar lista de notas", "Show/hide notes list"));
        t.push(("tooltip_new_note", "Nueva nota", "New note"));
        t.push(("tooltip_change_search_mode", "Ctrl para cambiar modo", "Ctrl to change mode"));
        t.push(("tooltip_close_esc", "Cerrar (Esc)", "Close (Esc)"));
        t.push(("tooltip_note_tags", "Tags de la nota", "Note tags"));
        t.push(("tooltip_note_todos", "TODOs de la nota", "Note TODOs"));
        t.push(("tooltip_music_player", "Reproductor de música", "Music player"));
        t.push(("tooltip_reminders", "Recordatorios (Alt+R)", "Reminders (Alt+R)"));
        t.push(("tooltip_settings", "Ajustes", "Settings"));
        t.push(("temperature_label", "Temperatura:", "Temperature:"));
        t.push(("max_tokens_label", "Max Tokens:", "Max Tokens:"));
        t.push(("unlimited", "Ilimitado", "Unlimited"));
        t.push(("save_history_label", "Guardar historial:", "Save history:"));
        t.push(("model_label", "Modelo:", "Model:"));
        t.push(("refresh_models_tooltip", "Actualizar lista de modelos desde OpenRouter", "Refresh model list from OpenRouter"));
        t.push(("search_model_placeholder", "Buscar modelo...", "Search model..."));
        t.push(("agent_mode_activated", "Modo Agente activado\nEl asistente puede buscar en notas y ejecutar acciones", "Agent Mode activated\nThe assistant can search notes and execute actions"));
        t.push(("chat_mode_activated", "Chat Normal activado\nConversación directa sin acceso a herramientas", "Normal Chat activated\nDirect conversation without tool access"));
        t.push(("analyzing_task", "Analizando tarea...", "Analyzing task..."));
        t.push(("mcp_server_title", "MCP Server - Model Context Protocol", "MCP Server - Model Context Protocol"));
        t.push(("mcp_server_active", "MCP Server Activo", "MCP Server Active"));
        t.push(("mcp_server_subtitle", "Exponiendo herramientas de NotNative via HTTP", "Exposing NotNative tools via HTTP"));
        t.push(("mcp_status", "Estado", "Status"));
        t.push(("mcp_endpoints_available", "Endpoints disponibles", "Available endpoints"));
        t.push(("shortcuts_global", "🌍 Globales", "🌍 Global"));
        t.push(("shortcuts_quick_notes", "📝 Quick Notes", "📝 Quick Notes"));
        t.push(("shortcuts_normal_navigation", "📝 Modo Normal - Navegación", "📝 Normal Mode - Navigation"));
        t.push(("shortcuts_normal_editing", "📝 Modo Normal - Edición y Modos", "📝 Normal Mode - Editing and Modes"));
        t.push(("shortcuts_insert_mode", "✍️ Modo Insertar", "✍️ Insert Mode"));
        t.push(("shortcuts_ai_chat", "🤖 Modo Chat AI", "🤖 AI Chat Mode"));
        t.push(("shortcuts_sidebar", "📂 Sidebar y Listas", "📂 Sidebar and Lists"));
        t.push(("shortcuts_floating_search", "🔍 Búsqueda Flotante", "🔍 Floating Search"));
        t.push(("shortcut_global_search", "Abrir búsqueda global flotante", "Open floating global search"));
        t.push(("shortcut_note_search", "Abrir búsqueda dentro de la nota actual", "Open search within current note"));
        t.push(("shortcut_enter_ai_chat", "Entrar al modo Chat AI", "Enter AI Chat mode"));
        t.push(("shortcut_back_or_close", "Volver a lista / Cerrar ventana", "Back to list / Close window"));
        t.push(("shortcut_left", "Mover cursor a la izquierda", "Move cursor left"));
        t.push(("shortcut_down", "Mover cursor abajo", "Move cursor down"));
        t.push(("shortcut_up", "Mover cursor arriba", "Move cursor up"));
        t.push(("shortcut_right", "Mover cursor a la derecha", "Move cursor right"));
        t.push(("shortcut_ai_chat_mode", "Entrar en Modo Chat AI", "Enter AI Chat Mode"));
        t.push(("shortcut_new_note", "Crear nueva nota", "Create new note"));
        t.push(("shortcut_insert_table", "Insertar tabla Markdown", "Insert Markdown table"));
        t.push(("shortcut_insert_image", "Insertar imagen", "Insert image"));
        t.push(("shortcut_tab_autocomplete", "Tabulación / Autocompletar Tag o @", "Tab / Autocomplete Tag or @"));
        t.push(("shortcut_exit_chat", "Salir del Chat (volver a Modo Normal)", "Exit Chat (back to Normal Mode)"));
        t.push(("shortcut_exit_chat_insert", "Salir del Chat y entrar a Modo Insertar", "Exit Chat and enter Insert Mode"));
        t.push(("shortcut_send_message", "Enviar mensaje", "Send message"));
        t.push(("shortcut_navigate_suggestions", "Navegar sugerencias", "Navigate suggestions"));
        t.push(("shortcut_accept_suggestion", "Aceptar sugerencia", "Accept suggestion"));
        t.push(("shortcut_next_note", "Siguiente nota", "Next note"));
        t.push(("shortcut_prev_note", "Nota anterior", "Previous note"));
        t.push(("shortcut_open_note", "Abrir nota o carpeta seleccionada", "Open selected note or folder"));
        t.push(("shortcut_focus_editor", "Devolver foco al editor", "Return focus to editor"));
        t.push(("shortcut_toggle_semantic", "Alternar búsqueda semántica (AI)", "Toggle semantic search (AI)"));
        t.push(("shortcut_navigate_results", "Navegar resultados", "Navigate results"));
        t.push(("shortcut_open_selected", "Abrir nota seleccionada", "Open selected note"));
        t.push(("base_add_filter", "Añadir filtro", "Add filter"));
        t.push(("base_sort", "Ordenar", "Sort"));
        t.push(("base_columns", "Columnas", "Columns"));
        t.push(("base_columns_config", "Configurar Columnas", "Configure Columns"));
        t.push(("base_data_source", "Origen de datos", "Data source mode"));
        t.push(("base_formula_rows", "Filas con fórmulas", "Formula rows"));
        t.push(("base_formula_rows_title", "Filas de Fórmulas", "Formula Rows"));
        t.push(("base_add_formula_row", "Añadir fila de totales", "Add totals row"));
        t.push(("base_formula_row_label", "Etiqueta", "Label"));
        t.push(("base_formula_help", "Usa fórmulas tipo Excel: =SUM(B:B), =AVG(C1:C10)", "Use Excel-like formulas: =SUM(B:B), =AVG(C1:C10)"));
        t.push(("base_export_xlsx", "Exportar a Excel", "Export to Excel"));
        t.push(("base_export_xlsx_success", "Exportado correctamente", "Exported successfully"));
        t.push(("base_export_xlsx_error", "Error al exportar", "Export error"));
        t.push(("base_show_graph", "Mostrar grafo de relaciones", "Show relationships graph"));
        t.push(("base_no_filters", "Sin filtros", "No filters"));
        t.push(("base_current_columns", "Columnas visibles", "Visible Columns"));
        t.push(("base_available_properties", "Propiedades disponibles", "Available Properties"));
        t.push(("base_toggle_visibility", "Alternar visibilidad", "Toggle visibility"));
        t.push(("base_remove_column", "Eliminar columna", "Remove column"));
        t.push(("base_add_column", "Propiedades disponibles", "Available Properties"));
        t.push(("base_properties_hint", "Clic en + para añadir como columna", "Click + to add as column"));
        t.push(("base_add_as_column", "Añadir como columna", "Add as column"));
        t.push(("base_move_up", "Mover arriba", "Move up"));
        t.push(("base_move_down", "Mover abajo", "Move down"));
        t.push(("base_data_source_title", "Origen de datos", "Data Source"));
        t.push(("base_notes_mode", "Notas", "Notes"));
        t.push(("base_grouped_mode", "Registros agrupados", "Grouped Records"));
        t.push(("base_grouped_hint", "Los registros agrupados muestran propiedades\ninline como [game::X, bought::Y] como filas", "Grouped Records shows inline property\ngroups like [game::X, bought::Y] as rows"));
        t.push(("base_search_placeholder", "Buscar en tabla...", "Search in table..."));
        t.push(("base_no_notes", "No se encontraron notas", "No notes found"));
        t.push(("base_items", "elementos", "items"));
        t.push(("base_items_of", "de", "of"));
        t.push(("base_title", "Título", "Title"));
        t.push(("base_created", "Creado", "Created"));
        t.push(("base_modified", "Modificado", "Modified"));
        t.push(("base_tags", "Etiquetas", "Tags"));
        t.push(("base_search_properties", "Buscar propiedades...", "Search properties..."));
        t.push(("base_move_up", "Mover arriba", "Move up"));
        t.push(("base_move_down", "Mover abajo", "Move down"));
        t.push(("base_no_available_props", "No hay más propiedades disponibles", "No more properties available"));
        t.push(("base_sort_by", "Ordenar por", "Sort by"));
        t.push(("base_no_sorting", "Sin ordenar", "No sorting"));
        t.push(("base_sort_ascending", "Orden ascendente", "Sort ascending"));
        t.push(("base_sort_descending", "Orden descendente", "Sort descending"));
        t.push(("base_add_filter_title", "Añadir filtro", "Add Filter"));
        t.push(("base_property", "Propiedad", "Property"));
        t.push(("base_operator", "Operador", "Operator"));
        t.push(("base_value", "Valor", "Value"));
        t.push(("base_filter_value_placeholder", "Valor del filtro...", "Filter value..."));
        t.push(("base_cancel", "Cancelar", "Cancel"));
        t.push(("base_apply_filter", "Aplicar filtro", "Add Filter"));
        t.push(("filter_op_equals", "igual a", "equals"));
        t.push(("filter_op_not_equals", "distinto de", "not equals"));
        t.push(("filter_op_contains", "contiene", "contains"));
        t.push(("filter_op_not_contains", "no contiene", "not contains"));
        t.push(("filter_op_greater_than", "mayor que", "greater than"));
        t.push(("filter_op_greater_or_equal", "mayor o igual", "greater or equal"));
        t.push(("filter_op_less_than", "menor que", "less than"));
        t.push(("filter_op_less_or_equal", "menor o igual", "less or equal"));
        t.push(("filter_op_starts_with", "empieza con", "starts with"));
        t.push(("filter_op_ends_with", "termina con", "ends with"));
        t.push(("filter_op_is_empty", "está vacío", "is empty"));
        t.push(("filter_op_is_not_empty", "no está vacío", "is not empty"));
        t
    }
}

} // verus!
